//! The probe scheduler of one assignment: expand the ranges, collect a latency for every
//! address, keep the addresses below the latency ceiling in ascending latency, then probe
//! their bandwidth one at a time until one reaches the minimum.
use crate::expand::{all_valid, expansion, ip_cidr_to_ips, parsed_blocks, texts, MalformedRangeError};
use vstd::prelude::*;

verus! {

/// One unit of work from the coordinator.
#[derive(Debug)]
pub struct Assignment {
    pub ip_ranges: Vec<String>,
    pub speed_url: String,
    pub minimum_mbps: i32,
    pub maximum_ping: i32,
}

/// The outcome of an assignment: the chosen address with its latency and throughput, or an
/// empty address with both numbers at -1 when no address qualified.
#[derive(Debug)]
pub struct ProbeReport {
    pub ip_address: String,
    pub latency: i32,
    pub speed: i32,
}

impl ProbeReport {
    pub open spec fn is_none_found(self) -> bool {
        self.ip_address@.len() == 0 && self.latency == -1 && self.speed == -1
    }

    /// The report of an assignment in which no address qualified.
    pub fn none_found() -> (r: ProbeReport)
        ensures
            r.is_none_found(),
    {
        ProbeReport { ip_address: String::new(), latency: -1, speed: -1 }
    }
}

#[derive(Clone, Copy, Debug, PartialEq, Eq, Structural)]
pub enum Phase {
    ProbingLatency,
    ProbingBandwidth,
    Done,
}

/// What the scheduler asks its driver to do next.
#[derive(Debug)]
pub enum SchedulerAction {
    /// Measure the throughput of `address`, whose latency was `latency_ms`.
    ProbeBandwidth { address: String, latency_ms: u64 },
    /// The assignment is finished: send this report.
    Report(ProbeReport),
}

/// The latency is known and strictly below the ceiling.
pub open spec fn below_max(latency: Option<u64>, maximum_ping: i32) -> bool {
    match latency {
        Some(l) => (l as int) < (maximum_ping as int),
        None => false,
    }
}

/// A measured throughput reaches the minimum; a failed probe never does.
pub open spec fn qualifies(measured: Option<u64>, minimum_mbps: i32) -> bool {
    match measured {
        Some(m) => (m as int) >= (minimum_mbps as int),
        None => false,
    }
}

/// Order of probing: by latency, then by position.
pub open spec fn key_lt(a: (u64, usize), b: (u64, usize)) -> bool {
    a.0 < b.0 || (a.0 == b.0 && a.1 < b.1)
}

/// Position `i` has a latency below the ceiling, and no earlier position of the same address
/// has one: it is where the address enters the latency map.
pub open spec fn first_below_max(
    addresses: Seq<Seq<char>>,
    latencies: Seq<Option<u64>>,
    maximum_ping: i32,
    i: int,
) -> bool {
    &&& 0 <= i < latencies.len()
    &&& below_max(latencies[i], maximum_ping)
    &&& forall|j: int|
        0 <= j < i && below_max(#[trigger] latencies[j], maximum_ping) ==> addresses[j]
            != addresses[i]
}

/// `order` holds, with its latency, one position for each address that has a latency below
/// the ceiling (its first such position), in ascending (latency, position).
pub open spec fn is_probe_order(
    order: Seq<(u64, usize)>,
    addresses: Seq<Seq<char>>,
    latencies: Seq<Option<u64>>,
    maximum_ping: i32,
) -> bool {
    &&& forall|k: int|
        0 <= k < order.len() ==> {
            &&& first_below_max(addresses, latencies, maximum_ping, (#[trigger] order[k]).1 as int)
            &&& latencies[order[k].1 as int] == Some(order[k].0)
        }
    &&& forall|i: int|
        0 <= i < latencies.len() && below_max(#[trigger] latencies[i], maximum_ping) ==> exists|
            k: int,
        |
            0 <= k < order.len() && addresses[(#[trigger] order[k]).1 as int] == addresses[i]
    &&& forall|k: int, l: int| 0 <= k < l < order.len() ==> key_lt(order[k], order[l])
}

pub open spec fn ascending(order: Seq<(u64, usize)>) -> bool {
    forall|k: int, l: int| 0 <= k < l < order.len() ==> key_lt(order[k], order[l])
}

/// Whether a position listed in `order` holds the same address as position `i`.
fn address_listed(order: &Vec<(u64, usize)>, addresses: &Vec<String>, i: usize) -> (r: bool)
    requires
        i < addresses@.len(),
        forall|m: int| 0 <= m < order@.len() ==> (#[trigger] order@[m]).1 < addresses@.len(),
    ensures
        r <==> exists|m: int|
            0 <= m < order@.len() && texts(addresses@)[(#[trigger] order@[m]).1 as int] == texts(
                addresses@,
            )[i as int],
{
    let ghost addrs = texts(addresses@);
    let mut k: usize = 0;
    while k < order.len()
        invariant
            k <= order@.len(),
            i < addresses@.len(),
            addrs == texts(addresses@),
            forall|m: int| 0 <= m < order@.len() ==> (#[trigger] order@[m]).1 < addresses@.len(),
            forall|m: int|
                0 <= m < k ==> addrs[(#[trigger] order@[m]).1 as int] != addrs[i as int],
        decreases order@.len() - k,
    {
        let idx = order[k].1;
        if addresses[idx] == addresses[i] {
            assert(addrs[order@[k as int].1 as int] == addrs[i as int]);
            return true;
        }
        k = k + 1;
    }
    false
}

/// Inserts `(l, i)` after every entry with a latency up to `l`; with positions all below `i`,
/// the order stays ascending.
fn insert_by_latency(order: &mut Vec<(u64, usize)>, l: u64, i: usize)
    requires
        ascending(old(order)@),
        forall|m: int| 0 <= m < old(order)@.len() ==> (#[trigger] old(order)@[m]).1 < i,
    ensures
        ascending(final(order)@),
        forall|x: (u64, usize)|
            #[trigger] final(order)@.contains(x) <==> (old(order)@.contains(x) || x == (l, i)),
{
    let mut pos: usize = 0;
    while pos < order.len() && order[pos].0 <= l
        invariant
            pos <= order@.len(),
            forall|m: int| 0 <= m < pos ==> (#[trigger] order@[m]).0 <= l,
        decreases order@.len() - pos,
    {
        pos = pos + 1;
    }
    let ghost old_order = order@;
    order.insert(pos, (l, i));
    proof {
        assert forall|m: int| pos <= m < old_order.len() implies (#[trigger] old_order[m]).0 > l by {
            if m > pos {
                assert(key_lt(old_order[pos as int], old_order[m]));
            }
        }
        assert forall|k: int, m: int| 0 <= k < m < order@.len() implies key_lt(
            order@[k],
            order@[m],
        ) by {
            if m < pos {
                assert(key_lt(old_order[k], old_order[m]));
            } else if m == pos {
                assert(old_order[k].0 <= l && old_order[k].1 < i);
            } else if k < pos {
                assert(key_lt(old_order[k], old_order[m - 1]));
            } else if k == pos {
                assert(old_order[m - 1].0 > l);
            } else {
                assert(key_lt(old_order[k - 1], old_order[m - 1]));
            }
        }
        assert forall|x: (u64, usize)| #[trigger] order@.contains(x) implies (old_order.contains(x)
            || x == (l, i)) by {
            let k = choose|k: int| 0 <= k < order@.len() && order@[k] == x;
            if k < pos {
                assert(old_order[k] == x);
            } else if k > pos {
                assert(old_order[k - 1] == x);
            }
        }
        assert forall|x: (u64, usize)| (old_order.contains(x) || x == (l, i)) implies #[trigger] order@.contains(x) by {
            if x == (l, i) {
                assert(order@[pos as int] == x);
            } else {
                let k = choose|k: int| 0 <= k < old_order.len() && old_order[k] == x;
                if k < pos {
                    assert(order@[k] == x);
                } else {
                    assert(order@[k + 1] == x);
                }
            }
        }
    }
}

/// `x` is a candidate entry found before position `bound`.
pub open spec fn entry_ok(
    x: (u64, usize),
    addresses: Seq<Seq<char>>,
    latencies: Seq<Option<u64>>,
    maximum_ping: i32,
    bound: int,
) -> bool {
    &&& (x.1 as int) < bound
    &&& first_below_max(addresses, latencies, maximum_ping, x.1 as int)
    &&& latencies[x.1 as int] == Some(x.0)
}

/// The candidates of the bandwidth probe: each address whose latency is below `maximum_ping`,
/// once, at its first such position, by ascending latency; equal latencies keep their order.
pub fn probe_order(addresses: &Vec<String>, latencies: &Vec<Option<u64>>, maximum_ping: i32) -> (r:
    Vec<(u64, usize)>)
    requires
        addresses@.len() == latencies@.len(),
    ensures
        is_probe_order(r@, texts(addresses@), latencies@, maximum_ping),
{
    let ghost addrs = texts(addresses@);
    let mut order: Vec<(u64, usize)> = Vec::new();
    let mut i: usize = 0;
    while i < latencies.len()
        invariant
            i <= latencies@.len(),
            addresses@.len() == latencies@.len(),
            addrs == texts(addresses@),
            forall|x: (u64, usize)|
                #[trigger] order@.contains(x) ==> entry_ok(x, addrs, latencies@, maximum_ping, i as int),
            forall|j: int|
                0 <= j < i && below_max(#[trigger] latencies@[j], maximum_ping) ==> exists|
                    x: (u64, usize),
                | #[trigger] order@.contains(x) && addrs[x.1 as int] == addrs[j],
            ascending(order@),
        decreases latencies@.len() - i,
    {
        proof {
            assert forall|m: int| 0 <= m < order@.len() implies (#[trigger] order@[m]).1 < i by {
                assert(order@.contains(order@[m]));
            }
        }
        if let Some(l) = latencies[i] {
            if (l as i128) < (maximum_ping as i128) {
                let listed = address_listed(&order, addresses, i);
                if !listed {
                    proof {
                        assert forall|j: int|
                            0 <= j < i && below_max(
                                #[trigger] latencies@[j],
                                maximum_ping,
                            ) implies addrs[j] != addrs[i as int] by {
                            if addrs[j] == addrs[i as int] {
                                let x = choose|x: (u64, usize)|
                                    #[trigger] order@.contains(x) && addrs[x.1 as int] == addrs[j];
                                let m = choose|m: int| 0 <= m < order@.len() && order@[m] == x;
                                assert(addrs[(order@[m]).1 as int] == addrs[i as int]);
                            }
                        }
                    }
                    let ghost before = order@;
                    insert_by_latency(&mut order, l, i);
                    proof {
                        assert(order@.contains((l, i)));
                        assert forall|x: (u64, usize)| #[trigger] order@.contains(x) implies entry_ok(
                            x,
                            addrs,
                            latencies@,
                            maximum_ping,
                            i + 1,
                        ) by {
                            if before.contains(x) {
                                assert(entry_ok(x, addrs, latencies@, maximum_ping, i as int));
                            }
                        }
                        assert forall|j: int|
                            0 <= j < i + 1 && below_max(
                                #[trigger] latencies@[j],
                                maximum_ping,
                            ) implies exists|x: (u64, usize)|
                            #[trigger] order@.contains(x) && addrs[x.1 as int] == addrs[j] by {
                            if j < i {
                                let x = choose|x: (u64, usize)|
                                    #[trigger] before.contains(x) && addrs[x.1 as int] == addrs[j];
                                assert(order@.contains(x));
                            } else {
                                assert(order@.contains((l, i)));
                            }
                        }
                    }
                } else {
                    proof {
                        let m = choose|m: int|
                            0 <= m < order@.len() && addrs[(#[trigger] order@[m]).1 as int]
                                == addrs[i as int];
                        assert(order@.contains(order@[m]));
                    }
                }
            }
        }
        i = i + 1;
    }
    proof {
        assert forall|k: int| 0 <= k < order@.len() implies {
            &&& first_below_max(addrs, latencies@, maximum_ping, (#[trigger] order@[k]).1 as int)
            &&& latencies@[order@[k].1 as int] == Some(order@[k].0)
        } by {
            assert(order@.contains(order@[k]));
        }
        assert forall|j: int|
            0 <= j < latencies@.len() && below_max(
                #[trigger] latencies@[j],
                maximum_ping,
            ) implies exists|k: int|
            0 <= k < order@.len() && addrs[(#[trigger] order@[k]).1 as int] == addrs[j] by {
            let x = choose|x: (u64, usize)| #[trigger] order@.contains(x) && addrs[x.1 as int] == addrs[j];
            let k = choose|k: int| 0 <= k < order@.len() && order@[k] == x;
            assert(addrs[(order@[k]).1 as int] == addrs[j]);
        }
    }
    order
}

/// The scheduler of one assignment.
#[derive(Debug)]
pub struct ProbeScheduler {
    /// The expanded addresses, in range order.
    pub addresses: Vec<String>,
    /// The latency of each address, `None` while unknown or unreachable.
    pub latencies: Vec<Option<u64>>,
    /// Candidates for the bandwidth probe: positions in `addresses` with their latency.
    pub order: Vec<(u64, usize)>,
    /// The candidate that the bandwidth probe is at.
    pub next: usize,
    pub speed_url: String,
    pub minimum_mbps: i32,
    pub maximum_ping: i32,
    pub phase: Phase,
    pub report: Option<ProbeReport>,
}

/// `m` as an `i32`, saturating.
pub open spec fn clamp_i32(m: u64) -> i32 {
    if m <= i32::MAX {
        m as i32
    } else {
        i32::MAX
    }
}

impl ProbeScheduler {
    pub open spec fn wf(self) -> bool {
        &&& self.latencies@.len() == self.addresses@.len()
        &&& self.phase != Phase::ProbingLatency ==> is_probe_order(
            self.order@,
            texts(self.addresses@),
            self.latencies@,
            self.maximum_ping,
        )
        &&& self.phase == Phase::ProbingBandwidth ==> self.next < self.order@.len()
        &&& (self.phase == Phase::Done <==> self.report is Some)
    }

    /// The candidate that the bandwidth probe is at, with its latency.
    pub open spec fn current(self) -> (String, u64) {
        (self.addresses@[self.order@[self.next as int].1 as int], self.order@[self.next as int].0)
    }

    /// The report naming the current candidate, measured at `mbps`.
    pub open spec fn report_for(self, mbps: u64) -> ProbeReport {
        ProbeReport {
            ip_address: self.current().0,
            latency: self.current().1 as i32,
            speed: clamp_i32(mbps),
        }
    }

    /// The action that a scheduler in this state asks for.
    pub open spec fn action(self) -> SchedulerAction {
        if self.phase == Phase::Done {
            SchedulerAction::Report(self.report->Some_0)
        } else {
            SchedulerAction::ProbeBandwidth {
                address: self.current().0,
                latency_ms: self.current().1,
            }
        }
    }

    /// Fields that no step after the expansion changes.
    pub open spec fn same_assignment(self, other: ProbeScheduler) -> bool {
        &&& other.addresses == self.addresses
        &&& other.speed_url == self.speed_url
        &&& other.minimum_mbps == self.minimum_mbps
        &&& other.maximum_ping == self.maximum_ping
    }

    /// The step from the latency phase: candidates are the addresses below the ceiling in
    /// probe order; with none, the scheduler is done and reports that nothing qualified.
    pub open spec fn latency_finished(self, after: ProbeScheduler) -> bool {
        &&& self.same_assignment(after)
        &&& after.latencies == self.latencies
        &&& is_probe_order(after.order@, texts(self.addresses@), self.latencies@, self.maximum_ping)
        &&& after.next == 0
        &&& after.order@.len() == 0 ==> (after.phase == Phase::Done && (after.report matches Some(
            r
        ) && r.is_none_found()))
        &&& after.order@.len() > 0 ==> after.phase == Phase::ProbingBandwidth
    }

    /// The step after a bandwidth probe of the current candidate: a qualifying throughput ends
    /// the assignment with that candidate; otherwise the next candidate is up, and after the
    /// last one the scheduler reports that nothing qualified.
    pub open spec fn bandwidth_recorded(self, after: ProbeScheduler, measured: Option<u64>) -> bool {
        &&& self.same_assignment(after)
        &&& after.latencies == self.latencies
        &&& after.order == self.order
        &&& qualifies(measured, self.minimum_mbps) ==> {
            &&& after.phase == Phase::Done
            &&& after.next == self.next
            &&& after.report == Some(self.report_for(measured->Some_0))
        }
        &&& !qualifies(measured, self.minimum_mbps) ==> {
            &&& after.next == self.next + 1
            &&& after.next < self.order@.len() ==> after.phase == Phase::ProbingBandwidth
            &&& after.next == self.order@.len() ==> (after.phase == Phase::Done
                && (after.report matches Some(r) && r.is_none_found()))
        }
    }

    /// Expands the assignment's ranges and waits for the latency of every address. A range
    /// that is not CIDR notation abandons the assignment.
    pub fn start(assignment: Assignment) -> (r: Result<ProbeScheduler, MalformedRangeError>)
        ensures
            r is Ok <==> all_valid(texts(assignment.ip_ranges@)),
            r matches Ok(s) ==> {
                &&& s.wf()
                &&& s.phase == Phase::ProbingLatency
                &&& texts(s.addresses@) == expansion(parsed_blocks(texts(assignment.ip_ranges@)))
                &&& forall|i: int| 0 <= i < s.latencies@.len() ==> s.latencies@[i] is None
                &&& s.speed_url == assignment.speed_url
                &&& s.minimum_mbps == assignment.minimum_mbps
                &&& s.maximum_ping == assignment.maximum_ping
            },
            r matches Err(e) ==> {
                &&& e.index < assignment.ip_ranges@.len()
                &&& e.entry@ == assignment.ip_ranges@[e.index as int]@
            },
    {
        let Assignment { ip_ranges, speed_url, minimum_mbps, maximum_ping } = assignment;
        let addresses = match ip_cidr_to_ips(ip_ranges) {
            Ok(v) => v,
            Err(e) => {
                return Err(e);
            },
        };
        let mut latencies: Vec<Option<u64>> = Vec::new();
        let mut i: usize = 0;
        while i < addresses.len()
            invariant
                i <= addresses@.len(),
                latencies@.len() == i,
                forall|j: int| 0 <= j < i ==> latencies@[j] is None,
            decreases addresses@.len() - i,
        {
            latencies.push(None);
            i = i + 1;
        }
        Ok(
            ProbeScheduler {
                addresses,
                latencies,
                order: Vec::new(),
                next: 0,
                speed_url,
                minimum_mbps,
                maximum_ping,
                phase: Phase::ProbingLatency,
                report: None,
            },
        )
    }

    /// Records the latency of the address at `index` (`None`: unreachable).
    pub fn record_latency(&mut self, index: usize, latency: Option<u64>)
        requires
            old(self).wf(),
            old(self).phase == Phase::ProbingLatency,
            index < old(self).addresses@.len(),
        ensures
            final(self).wf(),
            final(self).phase == Phase::ProbingLatency,
            old(self).same_assignment(*final(self)),
            final(self).latencies@ == old(self).latencies@.update(index as int, latency),
    {
        self.latencies.set(index, latency);
    }

    /// Ends the latency phase once every probe has been recorded.
    pub fn finish_latency(&mut self)
        requires
            old(self).wf(),
            old(self).phase == Phase::ProbingLatency,
        ensures
            final(self).wf(),
            old(self).latency_finished(*final(self)),
    {
        self.order = probe_order(&self.addresses, &self.latencies, self.maximum_ping);
        self.next = 0;
        if self.order.len() == 0 {
            self.phase = Phase::Done;
            self.report = Some(ProbeReport::none_found());
        } else {
            self.phase = Phase::ProbingBandwidth;
        }
    }

    /// What the driver is to do next: probe the current candidate, or send the report.
    pub fn next_action(&self) -> (r: SchedulerAction)
        requires
            self.wf(),
            self.phase != Phase::ProbingLatency,
        ensures
            r == self.action(),
    {
        match &self.report {
            Some(rep) => SchedulerAction::Report(
                ProbeReport {
                    ip_address: rep.ip_address.clone(),
                    latency: rep.latency,
                    speed: rep.speed,
                },
            ),
            None => {
                let (l, idx) = self.order[self.next];
                SchedulerAction::ProbeBandwidth {
                    address: self.addresses[idx].clone(),
                    latency_ms: l,
                }
            },
        }
    }

    /// Records the throughput of the current candidate (`None`: the probe failed).
    pub fn record_bandwidth(&mut self, measured: Option<u64>)
        requires
            old(self).wf(),
            old(self).phase == Phase::ProbingBandwidth,
        ensures
            final(self).wf(),
            old(self).bandwidth_recorded(*final(self), measured),
    {
        let n = self.order.len();
        let (l, idx) = self.order[self.next];
        let hit = match measured {
            Some(m) => (m as i128) >= (self.minimum_mbps as i128),
            None => false,
        };
        if hit {
            let m = measured.unwrap();
            let speed: i32 = if m <= i32::MAX as u64 {
                m as i32
            } else {
                i32::MAX
            };
            proof {
                assert(below_max(self.latencies@[idx as int], self.maximum_ping));
            }
            self.report = Some(
                ProbeReport { ip_address: self.addresses[idx].clone(), latency: l as i32, speed },
            );
            self.phase = Phase::Done;
        } else {
            self.next = self.next + 1;
            if self.next == n {
                self.phase = Phase::Done;
                self.report = Some(ProbeReport::none_found());
            }
        }
    }
}

/// Strictly ascending sequences of the same elements are equal.
proof fn lemma_sorted_same_elements(s: Seq<(u64, usize)>, t: Seq<(u64, usize)>)
    requires
        forall|k: int, l: int| 0 <= k < l < s.len() ==> key_lt(s[k], s[l]),
        forall|k: int, l: int| 0 <= k < l < t.len() ==> key_lt(t[k], t[l]),
        forall|x: (u64, usize)| s.contains(x) <==> t.contains(x),
    ensures
        s == t,
    decreases s.len(),
{
    if s.len() == 0 {
        if t.len() > 0 {
            assert(t.contains(t[0]));
        }
        assert(s =~= t);
    } else {
        assert(s.contains(s[0]));
        let j = choose|j: int| 0 <= j < t.len() && t[j] == s[0];
        assert(t.contains(t[0]));
        let i = choose|i: int| 0 <= i < s.len() && s[i] == t[0];
        if j > 0 {
            assert(key_lt(t[0], t[j]));
            if i > 0 {
                assert(key_lt(s[0], s[i]));
            }
        }
        if i > 0 {
            assert(key_lt(s[0], s[i]));
        }
        assert(s[0] == t[0]);
        let s1 = s.drop_first();
        let t1 = t.drop_first();
        assert forall|x: (u64, usize)| s1.contains(x) implies t1.contains(x) by {
            let k = choose|k: int| 0 <= k < s1.len() && s1[k] == x;
            assert(key_lt(s[0], s[k + 1]));
            assert(t.contains(x));
            let m = choose|m: int| 0 <= m < t.len() && t[m] == x;
            assert(m != 0);
            assert(t1[m - 1] == x);
        }
        assert forall|x: (u64, usize)| t1.contains(x) implies s1.contains(x) by {
            let k = choose|k: int| 0 <= k < t1.len() && t1[k] == x;
            assert(key_lt(t[0], t[k + 1]));
            assert(s.contains(x));
            let m = choose|m: int| 0 <= m < s.len() && s[m] == x;
            assert(m != 0);
            assert(s1[m - 1] == x);
        }
        assert forall|k: int, l: int| 0 <= k < l < s1.len() implies key_lt(s1[k], s1[l]) by {
            assert(key_lt(s[k + 1], s[l + 1]));
        }
        assert forall|k: int, l: int| 0 <= k < l < t1.len() implies key_lt(t1[k], t1[l]) by {
            assert(key_lt(t[k + 1], t[l + 1]));
        }
        lemma_sorted_same_elements(s1, t1);
        assert(s =~= t) by {
            assert forall|k: int| 0 <= k < s.len() implies s[k] == t[k] by {
                if k > 0 {
                    assert(s[k] == s1[k - 1]);
                    assert(t[k] == t1[k - 1]);
                }
            }
        }
    }
}

/// The probe order is determined by the addresses, the latencies and the ceiling alone: any
/// two orders that meet it are the same sequence.
pub proof fn lemma_probe_order_unique(
    a: Seq<(u64, usize)>,
    b: Seq<(u64, usize)>,
    addresses: Seq<Seq<char>>,
    latencies: Seq<Option<u64>>,
    maximum_ping: i32,
)
    requires
        is_probe_order(a, addresses, latencies, maximum_ping),
        is_probe_order(b, addresses, latencies, maximum_ping),
    ensures
        a == b,
{
    assert forall|x: (u64, usize)| a.contains(x) implies b.contains(x) by {
        let k = choose|k: int| 0 <= k < a.len() && a[k] == x;
        lemma_same_entry(a, b, addresses, latencies, maximum_ping, k);
    }
    assert forall|x: (u64, usize)| b.contains(x) implies a.contains(x) by {
        let k = choose|k: int| 0 <= k < b.len() && b[k] == x;
        lemma_same_entry(b, a, addresses, latencies, maximum_ping, k);
    }
    lemma_sorted_same_elements(a, b);
}

proof fn lemma_same_entry(
    a: Seq<(u64, usize)>,
    b: Seq<(u64, usize)>,
    addresses: Seq<Seq<char>>,
    latencies: Seq<Option<u64>>,
    maximum_ping: i32,
    k: int,
)
    requires
        is_probe_order(a, addresses, latencies, maximum_ping),
        is_probe_order(b, addresses, latencies, maximum_ping),
        0 <= k < a.len(),
    ensures
        b.contains(a[k]),
{
    let p = a[k].1 as int;
    assert(first_below_max(addresses, latencies, maximum_ping, p));
    assert(below_max(latencies[p], maximum_ping));
    let m = choose|m: int| 0 <= m < b.len() && addresses[(#[trigger] b[m]).1 as int] == addresses[p];
    let q = b[m].1 as int;
    assert(first_below_max(addresses, latencies, maximum_ping, q));
    if q < p {
        assert(below_max(latencies[q], maximum_ping));
    } else if p < q {
        assert(below_max(latencies[p], maximum_ping));
    }
    assert(b[m] == a[k]);
}

/// No address is a candidate twice.
pub proof fn lemma_probe_order_distinct_addresses(
    order: Seq<(u64, usize)>,
    addresses: Seq<Seq<char>>,
    latencies: Seq<Option<u64>>,
    maximum_ping: i32,
)
    requires
        is_probe_order(order, addresses, latencies, maximum_ping),
    ensures
        forall|k: int, l: int|
            0 <= k < l < order.len() ==> addresses[order[k].1 as int] != addresses[order[l].1 as int],
{
    assert forall|k: int, l: int| 0 <= k < l < order.len() implies addresses[order[k].1 as int]
        != addresses[order[l].1 as int] by {
        let p = order[k].1 as int;
        let q = order[l].1 as int;
        assert(key_lt(order[k], order[l]));
        assert(first_below_max(addresses, latencies, maximum_ping, p));
        assert(first_below_max(addresses, latencies, maximum_ping, q));
        if p < q {
            assert(below_max(latencies[p], maximum_ping));
        } else if q < p {
            assert(below_max(latencies[q], maximum_ping));
        }
    }
}

/// When no address has a latency below the ceiling, the scheduler reports that nothing
/// qualified as soon as the latency phase ends, without a single bandwidth probe.
pub proof fn lemma_nothing_below_ceiling_reports_none(before: ProbeScheduler, after: ProbeScheduler)
    requires
        before.wf(),
        before.phase == Phase::ProbingLatency,
        before.latency_finished(after),
        forall|i: int|
            0 <= i < before.latencies@.len() ==> !below_max(
                #[trigger] before.latencies@[i],
                before.maximum_ping,
            ),
    ensures
        after.order@.len() == 0,
        after.phase == Phase::Done,
        after.action() matches SchedulerAction::Report(r) && r.is_none_found(),
{
    if after.order@.len() > 0 {
        let i = after.order@[0].1 as int;
        assert(below_max(before.latencies@[i], before.maximum_ping));
    }
}

/// The first candidate whose throughput reaches the minimum ends the assignment: the next
/// action reports it, and no later candidate is probed.
pub proof fn lemma_stops_at_first_qualifying(
    before: ProbeScheduler,
    after: ProbeScheduler,
    measured: Option<u64>,
)
    requires
        before.wf(),
        before.phase == Phase::ProbingBandwidth,
        before.bandwidth_recorded(after, measured),
        qualifies(measured, before.minimum_mbps),
    ensures
        after.phase == Phase::Done,
        after.action() == SchedulerAction::Report(before.report_for(measured->Some_0)),
{
}

} // verus!
