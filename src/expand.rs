//! Expansion of CIDR blocks into the host addresses they contain.
use ipnetwork::{IpNetwork, IpNetworkError};
use vstd::arithmetic::div_mod::{
    lemma_fundamental_div_mod, lemma_fundamental_div_mod_converse_div, lemma_multiply_divide_lt,
};
use vstd::arithmetic::mul::lemma_mul_inequality;
use vstd::arithmetic::power2::{lemma2_to64, lemma_pow2_adds, lemma_pow2_pos, lemma_pow2_unfold, pow2};
use vstd::prelude::*;

verus! {

#[verifier::external_type_specification]
#[verifier::external_body]
pub struct ExIpNetworkError(IpNetworkError);

/// A parsed CIDR block: an address of either family and its prefix length.
#[allow(inconsistent_fields)]
#[derive(Clone, Copy, Debug, PartialEq, Eq, Structural)]
pub enum NetBlock {
    V4 { addr: u32, prefix: u8 },
    V6 { addr: u128, prefix: u8 },
}

/// One host address, as the integer that the address family defines.
#[derive(Clone, Copy, Debug, PartialEq, Eq, Structural)]
pub enum HostAddr {
    V4(u32),
    V6(u128),
}

impl NetBlock {
    /// Width of an address of the block's family.
    pub open spec fn bits(self) -> nat {
        match self {
            NetBlock::V4 { .. } => 32,
            NetBlock::V6 { .. } => 128,
        }
    }

    pub open spec fn prefix_len(self) -> nat {
        match self {
            NetBlock::V4 { prefix, .. } => prefix as nat,
            NetBlock::V6 { prefix, .. } => prefix as nat,
        }
    }

    pub open spec fn address(self) -> nat {
        match self {
            NetBlock::V4 { addr, .. } => addr as nat,
            NetBlock::V6 { addr, .. } => addr as nat,
        }
    }

    /// The prefix is no longer than the address.
    pub open spec fn wf(self) -> bool {
        self.prefix_len() <= self.bits()
    }

    pub open spec fn host_bits(self) -> nat {
        (self.bits() - self.prefix_len()) as nat
    }

    /// Number of addresses in the block.
    pub open spec fn size(self) -> nat {
        pow2(self.host_bits())
    }

    /// The lowest address of the block: the address with its host bits cleared.
    pub open spec fn first(self) -> nat {
        (self.address() / self.size()) * self.size()
    }

    pub open spec fn host(self, value: int) -> HostAddr {
        match self {
            NetBlock::V4 { .. } => HostAddr::V4(value as u32),
            NetBlock::V6 { .. } => HostAddr::V6(value as u128),
        }
    }

    /// `h` shares the block's family and its leading `prefix` bits.
    pub open spec fn contains(self, h: HostAddr) -> bool {
        match (self, h) {
            (NetBlock::V4 { addr, .. }, HostAddr::V4(a)) => a as nat / self.size() == addr as nat
                / self.size(),
            (NetBlock::V6 { addr, .. }, HostAddr::V6(a)) => a as nat / self.size() == addr as nat
                / self.size(),
            _ => false,
        }
    }

    /// The block's addresses in ascending order, network and broadcast included.
    pub open spec fn hosts(self) -> Seq<HostAddr> {
        Seq::new(self.size(), |i: int| self.host(self.first() + i))
    }
}

pub open spec fn digit_char(d: nat) -> char {
    seq!['0', '1', '2', '3', '4', '5', '6', '7', '8', '9'][d as int]
}

/// Decimal digits of `n`, without leading zeros.
pub open spec fn decimal(n: nat) -> Seq<char>
    decreases n,
{
    if n < 10 {
        seq![digit_char(n)]
    } else {
        decimal(n / 10) + seq![digit_char(n % 10)]
    }
}

/// Dotted-decimal form of an IPv4 address, most significant octet first.
pub open spec fn ipv4_text(a: u32) -> Seq<char> {
    decimal(a as nat / 16777216) + seq!['.'] + decimal((a as nat / 65536) % 256) + seq!['.']
        + decimal((a as nat / 256) % 256) + seq!['.'] + decimal(a as nat % 256)
}

/// The text std gives an IPv6 address.
pub uninterp spec fn ipv6_text(a: u128) -> Seq<char>;

/// The outcome of parsing CIDR notation with ipnetwork.
pub uninterp spec fn block_of(s: Seq<char>) -> Option<NetBlock>;

pub open spec fn host_text(h: HostAddr) -> Seq<char> {
    match h {
        HostAddr::V4(a) => ipv4_text(a),
        HostAddr::V6(a) => ipv6_text(a),
    }
}

pub open spec fn block_texts(b: NetBlock) -> Seq<Seq<char>> {
    b.hosts().map_values(|h: HostAddr| host_text(h))
}

/// The texts of all blocks' addresses, block after block.
pub open spec fn expansion(blocks: Seq<NetBlock>) -> Seq<Seq<char>>
    decreases blocks.len(),
{
    if blocks.len() == 0 {
        Seq::empty()
    } else {
        expansion(blocks.drop_last()) + block_texts(blocks.last())
    }
}

/// Sum of the blocks' sizes.
pub open spec fn total_size(blocks: Seq<NetBlock>) -> nat
    decreases blocks.len(),
{
    if blocks.len() == 0 {
        0
    } else {
        total_size(blocks.drop_last()) + blocks.last().size()
    }
}

pub open spec fn texts(v: Seq<String>) -> Seq<Seq<char>> {
    v.map_values(|s: String| s@)
}

/// Every entry is valid CIDR notation.
pub open spec fn all_valid(cidrs: Seq<Seq<char>>) -> bool {
    forall|i: int| 0 <= i < cidrs.len() ==> (#[trigger] block_of(cidrs[i])) is Some
}

pub open spec fn parsed_blocks(cidrs: Seq<Seq<char>>) -> Seq<NetBlock> {
    cidrs.map_values(|c: Seq<char>| block_of(c)->Some_0)
}

/// A CIDR entry that could not be parsed, with its position in the input.
#[derive(Clone, Debug)]
pub struct MalformedRangeError {
    pub index: usize,
    pub entry: String,
}

/// Relies on ipnetwork's `FromStr for IpNetwork`, read back through `ip()` and `prefix()`:
/// the outcome depends on the text alone, and a parsed prefix never exceeds the address
/// width (`Ipv4Network::new` and `Ipv6Network::new` refuse it).
#[verifier::external_body]
fn parse_block(s: &str) -> (r: Result<NetBlock, IpNetworkError>)
    ensures
        r is Ok <==> block_of(s@) is Some,
        r matches Ok(b) ==> block_of(s@) == Some(b) && b.wf(),
{
    match s.parse::<IpNetwork>() {
        Ok(IpNetwork::V4(n)) => Ok(NetBlock::V4 { addr: u32::from(n.ip()), prefix: n.prefix() }),
        Ok(IpNetwork::V6(n)) => Ok(NetBlock::V6 { addr: u128::from(n.ip()), prefix: n.prefix() }),
        Err(e) => Err(e),
    }
}

/// Relies on std's `Display for Ipv4Addr`: four decimal octets joined by dots.
#[verifier::external_body]
fn ipv4_string(a: u32) -> (r: String)
    ensures
        r@ == ipv4_text(a),
{
    core::net::Ipv4Addr::from(a).to_string()
}

/// Relies on std's `Display for Ipv6Addr`: the text depends on the address alone.
#[verifier::external_body]
fn ipv6_string(a: u128) -> (r: String)
    ensures
        r@ == ipv6_text(a),
{
    core::net::Ipv6Addr::from(a).to_string()
}

proof fn lemma_pow2_128()
    ensures
        pow2(128) == 0x1_0000_0000_0000_0000_0000_0000_0000_0000,
{
    lemma2_to64();
    lemma_pow2_adds(64, 64);
}

proof fn lemma_pow2_bounded(e: nat, f: nat)
    requires
        e <= f,
    ensures
        pow2(e) <= pow2(f),
    decreases f - e,
{
    if e < f {
        lemma_pow2_bounded(e, (f - 1) as nat);
        lemma_pow2_unfold(f);
        lemma_pow2_pos((f - 1) as nat);
    }
}

/// The block lies inside the address space of its family.
proof fn lemma_block_fits(b: NetBlock)
    requires
        b.wf(),
    ensures
        b.size() > 0,
        b.first() + b.size() <= pow2(b.bits()),
        b.first() <= b.address() < b.first() + b.size(),
{
    let size = b.size();
    lemma_pow2_pos(b.host_bits());
    lemma_pow2_adds(b.prefix_len(), b.host_bits());
    assert(b.prefix_len() + b.host_bits() == b.bits());
    lemma2_to64();
    lemma_pow2_128();
    assert(b.address() < pow2(b.bits()));
    assert(pow2(b.prefix_len()) * size == size * pow2(b.prefix_len())) by (nonlinear_arith);
    lemma_multiply_divide_lt(b.address() as int, size as int, pow2(b.prefix_len()) as int);
    let q = (b.address() / size) as int;
    lemma_mul_inequality(q + 1, pow2(b.prefix_len()) as int, size as int);
    assert((q + 1) * size == q * size + size) by (nonlinear_arith);
    lemma_fundamental_div_mod(b.address() as int, size as int);
}

/// Lowest and highest address of a well-formed block.
fn block_span(b: &NetBlock) -> (r: (u128, u128))
    requires
        b.wf(),
    ensures
        r.0 == b.first(),
        r.1 + 1 == b.first() + b.size(),
{
    proof {
        lemma_block_fits(*b);
        lemma2_to64();
        lemma_pow2_128();
    }
    let (addr, host_bits): (u128, u8) = match b {
        NetBlock::V4 { addr, prefix } => (*addr as u128, 32 - *prefix),
        NetBlock::V6 { addr, prefix } => (*addr, 128 - *prefix),
    };
    if host_bits == 128 {
        proof {
            assert(b.address() / b.size() == 0) by (nonlinear_arith)
                requires
                    b.address() < b.size(),
            ;
        }
        return (0, 0xffff_ffff_ffff_ffff_ffff_ffff_ffff_ffff);
    }
    let mut size: u128 = 1;
    let mut k: u8 = 0;
    while k < host_bits
        invariant
            host_bits < 128,
            k <= host_bits,
            size == pow2(k as nat),
        decreases host_bits - k,
    {
        proof {
            lemma_pow2_unfold((k + 1) as nat);
            lemma_pow2_bounded((k + 1) as nat, 127);
            lemma_pow2_unfold(128);
            lemma_pow2_128();
        }
        size = size * 2;
        k = k + 1;
    }
    assert(size == b.size());
    let first = addr / size * size;
    (first, first + (size - 1))
}

/// Appends the text of each address of `b`, in ascending order.
fn push_block_texts(out: &mut Vec<String>, b: &NetBlock)
    requires
        b.wf(),
    ensures
        texts(final(out)@) == texts(old(out)@) + block_texts(*b),
{
    let (first, last) = block_span(b);
    proof {
        lemma_block_fits(*b);
        lemma2_to64();
    }
    let ghost start = texts(out@);
    let ghost hosts = b.hosts();
    let mut cur: u128 = first;
    let mut done = false;
    while !done
        invariant
            first == b.first(),
            last + 1 == b.first() + b.size(),
            b.first() + b.size() <= pow2(b.bits()),
            pow2(32) == 0x1_0000_0000,
            hosts == b.hosts(),
            first <= cur <= last,
            !done ==> texts(out@) == start + hosts.take(cur - first).map_values(
                |h: HostAddr| host_text(h),
            ),
            done ==> texts(out@) == start + block_texts(*b),
        decreases last - cur + (if done {
            0int
        } else {
            1int
        }),
    {
        let s = match b {
            NetBlock::V4 { .. } => ipv4_string(cur as u32),
            NetBlock::V6 { .. } => ipv6_string(cur),
        };
        let ghost before = out@;
        out.push(s);
        proof {
            let i = cur - first;
            assert(hosts[i] == b.host(cur as int));
            assert(host_text(hosts[i]) == s@);
            assert(hosts.take(i + 1) == hosts.take(i).push(hosts[i]));
            assert(texts(out@) == texts(before).push(s@));
            assert(texts(out@) == start + hosts.take(i + 1).map_values(|h: HostAddr| host_text(h)));
            if cur == last {
                assert(hosts.take(i + 1) == hosts);
            }
        }
        if cur == last {
            done = true;
        } else {
            cur = cur + 1;
        }
    }
}

/// The text of every address of a well-formed block, network and broadcast addresses
/// included, in ascending order.
pub fn expand_block(b: &NetBlock) -> (r: Vec<String>)
    requires
        b.wf(),
    ensures
        texts(r@) == block_texts(*b),
{
    let mut out: Vec<String> = Vec::new();
    push_block_texts(&mut out, b);
    proof {
        assert(texts(Seq::<String>::empty()) =~= Seq::<Seq<char>>::empty());
        assert(Seq::<Seq<char>>::empty() + block_texts(*b) =~= block_texts(*b));
    }
    out
}

/// Expands each CIDR block into the text of every address it holds, network and broadcast
/// addresses included, in the order of the blocks and without removing repeats. The first
/// entry that is not CIDR notation fails the whole call, before anything is expanded.
pub fn ip_cidr_to_ips(ip_cidr: Vec<String>) -> (r: Result<Vec<String>, MalformedRangeError>)
    ensures
        r is Ok <==> all_valid(texts(ip_cidr@)),
        r matches Ok(v) ==> texts(v@) == expansion(parsed_blocks(texts(ip_cidr@))),
        r matches Err(e) ==> {
            &&& e.index < ip_cidr@.len()
            &&& e.entry@ == ip_cidr@[e.index as int]@
            &&& block_of(ip_cidr@[e.index as int]@) is None
            &&& all_valid(texts(ip_cidr@.take(e.index as int)))
        },
{
    let ghost cidrs = texts(ip_cidr@);
    let mut blocks: Vec<NetBlock> = Vec::new();
    let mut i: usize = 0;
    while i < ip_cidr.len()
        invariant
            i <= ip_cidr@.len(),
            cidrs == texts(ip_cidr@),
            blocks@.len() == i,
            forall|j: int| 0 <= j < i ==> block_of(cidrs[j]) == Some(#[trigger] blocks@[j]),
            forall|j: int| 0 <= j < i ==> (#[trigger] blocks@[j]).wf(),
        decreases ip_cidr@.len() - i,
    {
        match parse_block(ip_cidr[i].as_str()) {
            Ok(b) => {
                blocks.push(b);
            },
            Err(_) => {
                proof {
                    assert forall|j: int| 0 <= j < i implies (#[trigger] block_of(
                        texts(ip_cidr@.take(i as int))[j],
                    )) is Some by {
                        assert(texts(ip_cidr@.take(i as int))[j] == cidrs[j]);
                        assert(block_of(cidrs[j]) == Some(blocks@[j]));
                    }
                    assert(!all_valid(cidrs)) by {
                        assert(block_of(cidrs[i as int]) is None);
                    }
                }
                return Err(MalformedRangeError { index: i, entry: ip_cidr[i].clone() });
            },
        }
        i = i + 1;
    }
    proof {
        assert(all_valid(cidrs)) by {
            assert forall|j: int| 0 <= j < cidrs.len() implies (#[trigger] block_of(
                cidrs[j],
            )) is Some by {
                assert(block_of(cidrs[j]) == Some(blocks@[j]));
            }
        }
        assert(blocks@ == parsed_blocks(cidrs));
    }
    let mut out: Vec<String> = Vec::new();
    let mut k: usize = 0;
    while k < blocks.len()
        invariant
            k <= blocks@.len(),
            forall|j: int| 0 <= j < blocks@.len() ==> (#[trigger] blocks@[j]).wf(),
            texts(out@) == expansion(blocks@.take(k as int)),
        decreases blocks@.len() - k,
    {
        push_block_texts(&mut out, &blocks[k]);
        proof {
            let next = blocks@.take(k + 1);
            assert(next.drop_last() == blocks@.take(k as int));
            assert(next.last() == blocks@[k as int]);
        }
        k = k + 1;
    }
    proof {
        assert(blocks@.take(k as int) == blocks@);
    }
    Ok(out)
}

/// Every address of a well-formed block comes out of its enumeration exactly once, and the
/// enumeration holds as many addresses as the block.
pub proof fn lemma_block_hosts_exactly_once(b: NetBlock)
    requires
        b.wf(),
    ensures
        b.hosts().len() == b.size(),
        b.hosts().no_duplicates(),
        forall|h: HostAddr| #[trigger] b.contains(h) <==> b.hosts().contains(h),
{
    lemma_block_fits(b);
    lemma2_to64();
    lemma_pow2_128();
    let hosts = b.hosts();
    let size = b.size() as int;
    let q = b.address() as int / size;
    assert forall|i: int, j: int| 0 <= i < j < hosts.len() implies hosts[i] != hosts[j] by {}
    assert forall|h: HostAddr| #[trigger] b.contains(h) implies hosts.contains(h) by {
        let a: int = match h {
            HostAddr::V4(x) => x as int,
            HostAddr::V6(x) => x as int,
        };
        lemma_fundamental_div_mod(a, size);
        let i = a % size;
        assert(a / size == q);
        assert(size * (a / size) == q * size) by (nonlinear_arith)
            requires
                a / size == q,
        ;
        assert(a == q * size + i);
        assert(hosts[i] == h);
    }
    assert forall|h: HostAddr| hosts.contains(h) implies #[trigger] b.contains(h) by {
        let i = choose|i: int| 0 <= i < hosts.len() && hosts[i] == h;
        lemma_fundamental_div_mod_converse_div(b.first() + i, size, q, i);
    }
}

/// Expanding a single valid range gives the text of each of its addresses, one entry per
/// address of the block.
pub proof fn lemma_single_range_expansion(b: NetBlock)
    requires
        b.wf(),
    ensures
        expansion(seq![b]) == block_texts(b),
        expansion(seq![b]).len() == b.size(),
{
    let one = seq![b];
    assert(one.drop_last() =~= Seq::<NetBlock>::empty());
    assert(one.last() == b);
    assert(expansion(Seq::<NetBlock>::empty()) + block_texts(b) =~= block_texts(b));
}

proof fn lemma_decimal_shape(n: nat)
    ensures
        decimal(n).len() >= 1,
        n >= 10 ==> decimal(n).len() >= 2,
        forall|i: int| 0 <= i < decimal(n).len() ==> #[trigger] decimal(n)[i] != '.',
    decreases n,
{
    if n >= 10 {
        lemma_decimal_shape(n / 10);
        let p = decimal(n / 10);
        let d = seq![digit_char(n % 10)];
        assert(decimal(n) == p + d);
        assert forall|i: int| 0 <= i < decimal(n).len() implies #[trigger] decimal(n)[i] != '.' by {
            if i < p.len() {
                assert(decimal(n)[i] == p[i]);
            } else {
                assert(decimal(n)[i] == d[i - p.len()]);
            }
        }
    }
}

proof fn lemma_decimal_injective(m: nat, n: nat)
    requires
        decimal(m) == decimal(n),
    ensures
        m == n,
    decreases m,
{
    lemma_decimal_shape(m);
    lemma_decimal_shape(n);
    if m < 10 && n < 10 {
        assert(decimal(m)[0] == digit_char(m));
        assert(decimal(n)[0] == digit_char(n));
    } else if m >= 10 && n >= 10 {
        let pm = decimal(m / 10);
        let pn = decimal(n / 10);
        lemma_decimal_shape(m / 10);
        lemma_decimal_shape(n / 10);
        assert(decimal(m) == pm + seq![digit_char(m % 10)]);
        assert(decimal(n) == pn + seq![digit_char(n % 10)]);
        assert(decimal(m)[decimal(m).len() - 1] == digit_char(m % 10));
        assert(decimal(n)[decimal(n).len() - 1] == digit_char(n % 10));
        assert(pm =~= decimal(m).drop_last());
        assert(pn =~= decimal(n).drop_last());
        lemma_decimal_injective(m / 10, n / 10);
    }
}

/// Splitting at the first dot: parts without dots are determined by the joined text.
proof fn lemma_split_at_dot(x1: Seq<char>, y1: Seq<char>, x2: Seq<char>, y2: Seq<char>)
    requires
        forall|i: int| 0 <= i < x1.len() ==> #[trigger] x1[i] != '.',
        forall|i: int| 0 <= i < x2.len() ==> #[trigger] x2[i] != '.',
        x1 + seq!['.'] + y1 == x2 + seq!['.'] + y2,
    ensures
        x1 == x2,
        y1 == y2,
{
    let j1 = x1 + seq!['.'] + y1;
    let j2 = x2 + seq!['.'] + y2;
    if x1.len() < x2.len() {
        assert(j1[x1.len() as int] == '.');
        assert(j2[x1.len() as int] == x2[x1.len() as int]);
    } else if x2.len() < x1.len() {
        assert(j2[x2.len() as int] == '.');
        assert(j1[x2.len() as int] == x1[x2.len() as int]);
    }
    assert(x1 =~= j1.subrange(0, x1.len() as int));
    assert(x2 =~= j2.subrange(0, x2.len() as int));
    assert(y1 =~= j1.subrange(x1.len() as int + 1, j1.len() as int));
    assert(y2 =~= j2.subrange(x2.len() as int + 1, j2.len() as int));
}

/// Distinct IPv4 addresses have distinct texts.
#[verifier::rlimit(30)]
pub proof fn lemma_ipv4_text_injective(a: u32, b: u32)
    requires
        ipv4_text(a) == ipv4_text(b),
    ensures
        a == b,
{
    let (a1, a2, a3, a4) = (
        a as nat / 16777216,
        (a as nat / 65536) % 256,
        (a as nat / 256) % 256,
        a as nat % 256,
    );
    let (b1, b2, b3, b4) = (
        b as nat / 16777216,
        (b as nat / 65536) % 256,
        (b as nat / 256) % 256,
        b as nat % 256,
    );
    lemma_decimal_shape(a1);
    lemma_decimal_shape(a2);
    lemma_decimal_shape(a3);
    lemma_decimal_shape(b1);
    lemma_decimal_shape(b2);
    lemma_decimal_shape(b3);
    let ta = decimal(a2) + seq!['.'] + decimal(a3) + seq!['.'] + decimal(a4);
    let tb = decimal(b2) + seq!['.'] + decimal(b3) + seq!['.'] + decimal(b4);
    assert(ipv4_text(a) =~= decimal(a1) + seq!['.'] + ta);
    assert(ipv4_text(b) =~= decimal(b1) + seq!['.'] + tb);
    lemma_split_at_dot(decimal(a1), ta, decimal(b1), tb);
    let ua = decimal(a3) + seq!['.'] + decimal(a4);
    let ub = decimal(b3) + seq!['.'] + decimal(b4);
    assert(ta =~= decimal(a2) + seq!['.'] + ua);
    assert(tb =~= decimal(b2) + seq!['.'] + ub);
    lemma_split_at_dot(decimal(a2), ua, decimal(b2), ub);
    lemma_split_at_dot(decimal(a3), decimal(a4), decimal(b3), decimal(b4));
    lemma_decimal_injective(a1, b1);
    lemma_decimal_injective(a2, b2);
    lemma_decimal_injective(a3, b3);
    lemma_decimal_injective(a4, b4);
    lemma_octets_determine(a, b);
}

proof fn lemma_octets_determine(a: u32, b: u32)
    requires
        a as nat / 16777216 == b as nat / 16777216,
        (a as nat / 65536) % 256 == (b as nat / 65536) % 256,
        (a as nat / 256) % 256 == (b as nat / 256) % 256,
        a as nat % 256 == b as nat % 256,
    ensures
        a == b,
{
    assert(a == b) by (bit_vector)
        requires
            a / 16777216 == b / 16777216,
            (a / 65536) % 256 == (b / 65536) % 256,
            (a / 256) % 256 == (b / 256) % 256,
            a % 256 == b % 256,
    ;
}

/// The texts of an IPv4 block's addresses are pairwise distinct: each address appears once
/// in its expansion.
pub proof fn lemma_ipv4_block_texts_distinct(b: NetBlock)
    requires
        b.wf(),
        b is V4,
    ensures
        block_texts(b).no_duplicates(),
{
    lemma_block_hosts_exactly_once(b);
    let hosts = b.hosts();
    let t = block_texts(b);
    assert forall|i: int, j: int| 0 <= i < j < t.len() implies t[i] != t[j] by {
        assert(hosts[i] != hosts[j]);
        if let (HostAddr::V4(x), HostAddr::V4(y)) = (hosts[i], hosts[j]) {
            if t[i] == t[j] {
                lemma_ipv4_text_injective(x, y);
            }
        }
    }
}

/// The expansion of valid blocks holds as many entries as the blocks hold addresses.
pub proof fn lemma_expansion_len(blocks: Seq<NetBlock>)
    ensures
        expansion(blocks).len() == total_size(blocks),
    decreases blocks.len(),
{
    if blocks.len() > 0 {
        lemma_expansion_len(blocks.drop_last());
    }
}

} // verus!
