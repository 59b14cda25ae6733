use vstd::prelude::*;
use vstd::arithmetic::power2::{pow2, lemma_pow2_pos, lemma_pow2_adds, lemma_pow2_strictly_increases, lemma2_to64};
use vstd::arithmetic::div_mod::lemma_fundamental_div_mod;
use crate::error::Error;

verus! {

/// Number of addresses in a block with this prefix length.
pub open spec fn block_size(prefix: nat) -> nat {
    pow2((32 - prefix) as nat)
}

/// First address of the block with this prefix length that holds `addr`.
pub open spec fn network_start(addr: u32, prefix: nat) -> nat {
    (addr as nat / block_size(prefix)) * block_size(prefix)
}

/// The usable hosts of the block, ascending: all of it but its first and
/// last address when the prefix is below 31, the whole block for 31 and 32.
pub open spec fn host_seq(addr: u32, prefix: nat) -> Seq<u32> {
    let net = network_start(addr, prefix);
    let size = block_size(prefix);
    if prefix < 31 {
        Seq::new((size - 2) as nat, |i: int| (net + 1 + i) as u32)
    } else {
        Seq::new(size, |i: int| (net + i) as u32)
    }
}

/// What ipnet's parser makes of a network written as text.
pub uninterp spec fn parsed_cidr(s: Seq<char>) -> Option<(u32, u8)>;

/// Relies on ipnet's `FromStr for Ipv4Net`: reads `a.b.c.d/p`, and its
/// parser accepts no prefix length above 32.
#[verifier::external_body]
fn parse_ipv4_net(s: &str) -> (r: Option<(u32, u8)>)
    ensures
        r == parsed_cidr(s@),
        match r {
            Some(x) => x.1 <= 32,
            None => true,
        },
{
    match s.parse::<ipnet::Ipv4Net>() {
        Ok(net) => Some((u32::from(net.addr()), net.prefix_len())),
        Err(_) => None,
    }
}

/// Relies on ipnet's `Ipv4Net::new` and `Ipv4Net::hosts`: the range runs from
/// the network address to the broadcast address, inclusive, each narrowed by
/// one when the prefix length is below 31.
#[verifier::external_body]
fn ipnet_hosts(addr: u32, prefix: u8) -> (r: Vec<u32>)
    requires
        prefix <= 32,
    ensures
        r@ == host_seq(addr, prefix as nat),
{
    match ipnet::Ipv4Net::new(addr.into(), prefix) {
        Ok(net) => net.hosts().map(u32::from).collect(),
        Err(_) => Vec::new(),
    }
}

/// The block fits below 2^32 and holds the address it was built from.
pub proof fn lemma_block_bounds(addr: u32, prefix: nat)
    requires
        prefix <= 32,
    ensures
        block_size(prefix) >= 1,
        network_start(addr, prefix) <= addr < network_start(addr, prefix) + block_size(prefix),
        network_start(addr, prefix) + block_size(prefix) <= 0x1_0000_0000,
{
    let size = block_size(prefix);
    let hi = (32 - prefix) as nat;
    lemma_pow2_pos(hi);
    lemma_pow2_pos(prefix);
    lemma_pow2_adds(hi, prefix);
    lemma2_to64();
    assert(hi + prefix == 32);
    let q = addr as int / size as int;
    lemma_fundamental_div_mod(addr as int, size as int);
    let m = addr as int % size as int;
    assert(0 <= m < size);
    let k = pow2(prefix) as int;
    assert(size * k == 0x1_0000_0000);
    assert(q < k) by (nonlinear_arith)
        requires
            size * q + m == addr as int,
            0 <= m,
            addr < size * k,
            size > 0,
    ;
    assert(q * size + size <= 0x1_0000_0000) by (nonlinear_arith)
        requires
            q + 1 <= k,
            size > 0,
            size * k == 0x1_0000_0000,
    ;
    assert(q * size == size * q) by (nonlinear_arith);
    assert(q >= 0) by (nonlinear_arith)
        requires
            size * q + m == addr as int,
            m < size,
            size > 0,
            addr >= 0,
    ;
}

/// For a prefix length of at most 30 the hosts are the `2^(32 - prefix) - 2`
/// addresses strictly between the network address and the broadcast address,
/// one after another.
pub proof fn lemma_hosts_exclude_network_and_broadcast(addr: u32, prefix: nat)
    requires
        prefix <= 30,
    ensures
        host_seq(addr, prefix).len() == pow2((32 - prefix) as nat) - 2,
        forall|i: int|
            0 <= i < host_seq(addr, prefix).len() ==> {
                &&& host_seq(addr, prefix)[i] == network_start(addr, prefix) + 1 + i
                &&& network_start(addr, prefix) < host_seq(addr, prefix)[i]
                &&& host_seq(addr, prefix)[i] < network_start(addr, prefix) + block_size(prefix) - 1
            },
{
    lemma_block_bounds(addr, prefix);
    let hi = (32 - prefix) as nat;
    lemma2_to64();
    if hi > 2 {
        lemma_pow2_strictly_increases(2, hi);
    }
    assert(block_size(prefix) >= 4);
}

/// A prefix length of 31 gives both addresses of the pair, and 32 gives the
/// one address itself: neither leaves the network without hosts.
pub proof fn lemma_point_to_point_and_single_host(addr: u32)
    ensures
        host_seq(addr, 31) == seq![
            network_start(addr, 31) as u32,
            (network_start(addr, 31) + 1) as u32,
        ],
        network_start(addr, 31) + 1 < 0x1_0000_0000,
        network_start(addr, 31) == addr as int - addr as int % 2,
        host_seq(addr, 32) == seq![addr],
{
    lemma_block_bounds(addr, 31);
    lemma_block_bounds(addr, 32);
    lemma2_to64();
    assert(block_size(31) == 2);
    assert(block_size(32) == 1);
    lemma_fundamental_div_mod(addr as int, 2);
    assert(network_start(addr, 31) == (addr as int / 2) * 2);
    assert((addr as int / 2) * 2 == 2 * (addr as int / 2)) by (nonlinear_arith);
    assert(host_seq(addr, 31) =~= seq![
        network_start(addr, 31) as u32,
        (network_start(addr, 31) + 1) as u32,
    ]);
    assert(host_seq(addr, 32) =~= seq![addr]);
}

/// Listing the hosts of one network twice gives the same sequence both times.
pub proof fn lemma_hosts_restartable(net: NetworkRange, first: Seq<u32>, second: Seq<u32>)
    requires
        net.wf(),
        first == net.host_seq(),
        second == net.host_seq(),
    ensures
        first == second,
        first.len() == second.len(),
        forall|i: int| 0 <= i < first.len() ==> first[i] == second[i],
{
}

/// An IPv4 network: an address and a prefix length.
#[derive(Clone, Copy, Debug, PartialEq, Eq)]
pub struct NetworkRange {
    pub addr: u32,
    pub prefix: u8,
}

/// `e` reports `s` as malformed network notation.
pub open spec fn is_invalid_cidr(e: Error, s: Seq<char>) -> bool {
    match e {
        Error::InvalidCidrNotation(t) => t@ == s,
        _ => false,
    }
}

impl NetworkRange {
    pub open spec fn wf(&self) -> bool {
        self.prefix <= 32
    }

    /// The hosts of this network, ascending.
    pub open spec fn host_seq(&self) -> Seq<u32> {
        host_seq(self.addr, self.prefix as nat)
    }

    /// Builds the network from what the parser made of `cidr`; anything but
    /// an address with a prefix length of at most 32 is malformed notation.
    pub fn from_parsed(cidr: &str, parsed: Option<(u32, u8)>) -> (r: Result<NetworkRange, Error>)
        ensures
            match parsed {
                Some(x) => if x.1 <= 32 {
                    r == Ok::<NetworkRange, Error>(NetworkRange { addr: x.0, prefix: x.1 })
                } else {
                    r is Err && is_invalid_cidr(r->Err_0, cidr@)
                },
                None => r is Err && is_invalid_cidr(r->Err_0, cidr@),
            },
    {
        match parsed {
            Some((addr, prefix)) if prefix <= 32 => Ok(NetworkRange { addr, prefix }),
            _ => Err(Error::InvalidCidrNotation(cidr.to_owned())),
        }
    }

    /// Parses `a.b.c.d/prefix`.
    pub fn parse(cidr: &str) -> (r: Result<NetworkRange, Error>)
        ensures
            match parsed_cidr(cidr@) {
                Some(x) => x.1 <= 32 && r == Ok::<NetworkRange, Error>(
                    NetworkRange { addr: x.0, prefix: x.1 },
                ),
                None => r is Err && is_invalid_cidr(r->Err_0, cidr@),
            },
    {
        let parsed = parse_ipv4_net(cidr);
        NetworkRange::from_parsed(cidr, parsed)
    }

    /// The hosts of this network, ascending.
    pub fn hosts(&self) -> (r: Vec<u32>)
        requires
            self.wf(),
        ensures
            r@ == self.host_seq(),
    {
        ipnet_hosts(self.addr, self.prefix)
    }
}

/// Parses `cidr` and lists the hosts of the network it names.
pub fn expand(cidr: &str) -> (r: Result<Vec<u32>, Error>)
    ensures
        match parsed_cidr(cidr@) {
            Some(x) => x.1 <= 32 && r is Ok && r->Ok_0@ == host_seq(x.0, x.1 as nat),
            None => r is Err && is_invalid_cidr(r->Err_0, cidr@),
        },
{
    match NetworkRange::parse(cidr) {
        Ok(net) => Ok(net.hosts()),
        Err(e) => Err(e),
    }
}

} // verus!
