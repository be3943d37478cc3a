//! IPv4 and IPv6 addresses and networks.
use vstd::arithmetic::div_mod::{
    lemma_basic_div, lemma_div_denominator, lemma_fundamental_div_mod, lemma_fundamental_div_mod_converse,
};
use vstd::arithmetic::power2::{
    lemma2_to64, lemma_pow2_adds, lemma_pow2_pos, lemma_pow2_strictly_increases, pow2,
};
use vstd::bits::{
    lemma_u32_low_bits_mask_is_mod, lemma_u32_shl_is_mul, lemma_u32_shr_is_div, low_bits_mask,
};
use vstd::prelude::*;

use crate::error::FlannelError;
use crate::text::{
    decimal, decimal_spells_the_number, decimal_text, decimal_value, split, split_after_a_piece,
    split_of_a_piece,
};

verus! {

/// An IPv4 address as the big-endian number of its four octets.
#[derive(Debug, Clone, Copy, PartialEq, Eq, Structural)]
pub struct Ipv4Addr {
    pub bits: u32,
}

/// An IPv6 address as the big-endian number of its sixteen octets.
#[derive(Debug, Clone, Copy, PartialEq, Eq, Structural)]
pub struct Ipv6Addr {
    pub bits: u128,
}

/// An address of either family.
#[derive(Debug, Clone, Copy, PartialEq, Eq, Structural)]
pub enum IpAddr {
    V4(Ipv4Addr),
    V6(Ipv6Addr),
}

/// An IPv4 address with a prefix length of at most 32. The address may have host bits.
#[derive(Debug, Clone, Copy, PartialEq, Eq, Structural)]
pub struct Ipv4Network {
    addr: Ipv4Addr,
    prefix: u8,
}

/// An IPv6 address with a prefix length of at most 128. The address may have host bits.
#[derive(Debug, Clone, Copy, PartialEq, Eq, Structural)]
pub struct Ipv6Network {
    addr: Ipv6Addr,
    prefix: u8,
}

/// A network of either family.
#[derive(Debug, Clone, Copy, PartialEq, Eq, Structural)]
pub enum IpNetwork {
    V4(Ipv4Network),
    V6(Ipv6Network),
}

/// Number of addresses that share their first `prefix` bits.
pub open spec fn block_size(prefix: u8) -> nat {
    pow2((32 - prefix) as nat)
}

/// The number that the first `prefix` bits of an address make.
pub open spec fn block(addr: Ipv4Addr, prefix: u8) -> nat {
    addr.bits as nat / block_size(prefix)
}

/// The octet of an address at position `i`, counted from the most significant one.
pub open spec fn octet(addr: Ipv4Addr, i: int) -> nat {
    if i == 0 {
        addr.bits as nat / 0x1000000
    } else if i == 1 {
        addr.bits as nat / 0x10000 % 256
    } else if i == 2 {
        addr.bits as nat / 0x100 % 256
    } else {
        addr.bits as nat % 256
    }
}

/// An address in dotted decimal notation.
pub open spec fn addr_text(addr: Ipv4Addr) -> Seq<char> {
    decimal(octet(addr, 0)) + seq!['.'] + decimal(octet(addr, 1)) + seq!['.'] + decimal(
        octet(addr, 2),
    ) + seq!['.'] + decimal(octet(addr, 3))
}

/// An address and a prefix length in CIDR notation.
pub open spec fn cidr_text(addr: Ipv4Addr, prefix: u8) -> Seq<char> {
    addr_text(addr) + seq!['/'] + decimal(prefix as nat)
}

impl Ipv4Addr {
    pub fn new(a: u8, b: u8, c: u8, d: u8) -> (r: Self)
        ensures
            r.bits == a * 0x1000000 + b * 0x10000 + c * 0x100 + d,
    {
        Ipv4Addr { bits: a as u32 * 0x1000000 + b as u32 * 0x10000 + c as u32 * 0x100 + d as u32 }
    }

    /// The address of four octets.
    pub fn from_octets(octets: [u8; 4]) -> (r: Self)
        ensures
            r.bits == octets[0] * 0x1000000 + octets[1] * 0x10000 + octets[2] * 0x100 + octets[3],
    {
        Self::new(octets[0], octets[1], octets[2], octets[3])
    }

    /// 0.0.0.0
    pub fn is_unspecified(self) -> (r: bool)
        ensures
            r == (self.bits == 0),
    {
        self.bits == 0
    }

    /// 255.255.255.255
    pub fn is_broadcast(self) -> (r: bool)
        ensures
            r == (self.bits == u32::MAX),
    {
        self.bits == u32::MAX
    }

    /// 127.0.0.0/8
    pub fn is_loopback(self) -> (r: bool)
        ensures
            r == (octet(self, 0) == 127),
    {
        self.bits / 0x1000000 == 127
    }

    /// 224.0.0.0/4
    pub fn is_multicast(self) -> (r: bool)
        ensures
            r == (224 <= octet(self, 0) <= 239),
    {
        let first = self.bits / 0x1000000;
        224 <= first && first <= 239
    }

    /// 169.254.0.0/16
    pub fn is_link_local(self) -> (r: bool)
        ensures
            r == (octet(self, 0) == 169 && octet(self, 1) == 254),
    {
        self.bits / 0x1000000 == 169 && self.bits / 0x10000 % 256 == 254
    }

    /// The address in dotted decimal notation.
    pub fn to_text(self) -> (r: String)
        ensures
            r@ == addr_text(self),
    {
        proof {
            reveal_strlit(".");
        }
        let n = self.bits;
        let mut s = decimal_text((n / 0x1000000) as u64);
        s.append(".");
        s.append(decimal_text((n / 0x10000 % 256) as u64).as_str());
        s.append(".");
        s.append(decimal_text((n / 0x100 % 256) as u64).as_str());
        s.append(".");
        s.append(decimal_text((n % 256) as u64).as_str());
        s
    }
}

impl Ipv4Network {
    #[verifier::type_invariant]
    spec fn prefix_in_range(self) -> bool {
        self.prefix <= 32
    }

    pub closed spec fn spec_ip(self) -> Ipv4Addr {
        self.addr
    }

    pub closed spec fn spec_prefix(self) -> u8 {
        self.prefix
    }

    /// The network of an address and a prefix length.
    pub closed spec fn of(addr: Ipv4Addr, prefix: u8) -> Self {
        Ipv4Network { addr, prefix }
    }

    /// Whether an address shares the network's first bits.
    pub open spec fn has(self, addr: Ipv4Addr) -> bool {
        block(addr, self.spec_prefix()) == block(self.spec_ip(), self.spec_prefix())
    }

    /// Whether two networks agree on the first bits of the shorter prefix.
    pub open spec fn meets(self, other: Self) -> bool {
        if self.spec_prefix() <= other.spec_prefix() {
            self.has(other.spec_ip())
        } else {
            other.has(self.spec_ip())
        }
    }

    pub fn new(addr: Ipv4Addr, prefix: u8) -> (r: Result<Self, FlannelError>)
        ensures
            prefix <= 32 ==> r == Ok::<Self, FlannelError>(Self::of(addr, prefix)),
            prefix > 32 ==> r == Err::<Self, FlannelError>(FlannelError::InvalidPrefix),
    {
        if prefix > 32 {
            return Err(FlannelError::InvalidPrefix);
        }
        Ok(Ipv4Network { addr, prefix })
    }

    /// The network that a text holds in CIDR notation.
    pub open spec fn parsed(text: Seq<char>) -> Result<Self, FlannelError> {
        match ipv4_network_of(text) {
            Some((ip, prefix)) => Ok(Self::of(Ipv4Addr { bits: ip }, prefix)),
            None => Err(FlannelError::InvalidNetwork),
        }
    }

    /// Reads a network in CIDR notation. What `to_text` writes is read back.
    pub fn parse(text: &str) -> (r: Result<Self, FlannelError>)
        ensures
            r == Self::parsed(text@),
            forall|addr: Ipv4Addr, prefix: u8|
                prefix <= 32 && text@ == #[trigger] cidr_text(addr, prefix) ==> r == Ok::<
                    Self,
                    FlannelError,
                >(Self::of(addr, prefix)),
    {
        match parse_ipv4_network(text) {
            Ok((ip, prefix)) => Self::new(Ipv4Addr { bits: ip }, prefix),
            Err(_) => Err(FlannelError::InvalidNetwork),
        }
    }

    /// The network of a single address.
    pub fn host(addr: Ipv4Addr) -> (r: Self)
        ensures
            r == Self::of(addr, 32),
    {
        Ipv4Network { addr, prefix: 32 }
    }

    /// The network of all addresses, 0.0.0.0/0.
    pub fn everything() -> (r: Self)
        ensures
            r == Self::of(Ipv4Addr { bits: 0 }, 0),
    {
        Ipv4Network { addr: Ipv4Addr { bits: 0 }, prefix: 0 }
    }

    #[verifier::when_used_as_spec(spec_ip)]
    pub fn ip(self) -> (r: Ipv4Addr)
        ensures
            r == self.spec_ip(),
    {
        self.addr
    }

    #[verifier::when_used_as_spec(spec_prefix)]
    pub fn prefix(self) -> (r: u8)
        ensures
            r == self.spec_prefix(),
            r <= 32,
    {
        proof {
            use_type_invariant(&self);
        }
        self.prefix
    }

    /// The lowest address of the network.
    pub fn network(self) -> (r: Ipv4Addr)
        ensures
            r.bits == block(self.ip(), self.prefix()) * block_size(self.prefix()),
    {
        proof {
            use_type_invariant(&self);
        }
        Ipv4Addr { bits: network_bits(self.addr.bits, self.prefix) }
    }

    /// Whether the network holds an address.
    pub fn contains(self, addr: Ipv4Addr) -> (r: bool)
        ensures
            r == self.has(addr),
    {
        proof {
            use_type_invariant(&self);
        }
        network_contains(self.addr.bits, self.prefix, addr.bits)
    }

    /// Whether two networks have an address in common.
    pub fn overlaps(self, other: Self) -> (r: bool)
        ensures
            r == self.meets(other),
    {
        proof {
            use_type_invariant(&self);
            use_type_invariant(&other);
        }
        networks_overlap(self.addr.bits, self.prefix, other.addr.bits, other.prefix)
    }

    /// The network in CIDR notation.
    pub fn to_text(self) -> (r: String)
        ensures
            r@ == cidr_text(self.ip(), self.prefix()),
    {
        proof {
            reveal_strlit("/");
        }
        let mut s = self.addr.to_text();
        s.append("/");
        s.append(decimal_text(self.prefix as u64).as_str());
        s
    }
}

/// A network is determined by its address and its prefix length.
pub broadcast proof fn network_of_parts(addr: Ipv4Addr, prefix: u8)
    ensures
        (#[trigger] Ipv4Network::of(addr, prefix)).spec_ip() == addr,
        Ipv4Network::of(addr, prefix).spec_prefix() == prefix,
{
}

/// Two networks with the same address and prefix length are the same.
pub proof fn network_eq(a: Ipv4Network, b: Ipv4Network)
    requires
        a.ip() == b.ip(),
        a.prefix() == b.prefix(),
    ensures
        a == b,
{
}

/// Calls `ipnetwork::Ipv4Network::network`: the address with the bits after the prefix cleared.
#[verifier::external_body]
fn network_bits(ip: u32, prefix: u8) -> (r: u32)
    requires
        prefix <= 32,
    ensures
        r == block(Ipv4Addr { bits: ip }, prefix) * block_size(prefix),
{
    ipnetwork::Ipv4Network::new(ip.into(), prefix).unwrap().network().into()
}

/// Calls `ipnetwork::Ipv4Network::contains`: whether the network's address and the other one
/// agree on the first `prefix` bits.
#[verifier::external_body]
fn network_contains(ip: u32, prefix: u8, addr: u32) -> (r: bool)
    requires
        prefix <= 32,
    ensures
        r == (block(Ipv4Addr { bits: addr }, prefix) == block(Ipv4Addr { bits: ip }, prefix)),
{
    ipnetwork::Ipv4Network::new(ip.into(), prefix).unwrap().contains(addr.into())
}

/// Calls `ipnetwork::Ipv4Network::overlaps`, which asks whether either network contains the
/// other's own or last address: whether the two addresses agree on the bits of the shorter prefix.
#[verifier::external_body]
fn networks_overlap(ip: u32, prefix: u8, other_ip: u32, other_prefix: u8) -> (r: bool)
    requires
        prefix <= 32,
        other_prefix <= 32,
    ensures
        prefix <= other_prefix ==> r == (block(Ipv4Addr { bits: other_ip }, prefix) == block(
            Ipv4Addr { bits: ip },
            prefix,
        )),
        prefix > other_prefix ==> r == (block(Ipv4Addr { bits: ip }, other_prefix) == block(
            Ipv4Addr { bits: other_ip },
            other_prefix,
        )),
{
    let other = ipnetwork::Ipv4Network::new(other_ip.into(), other_prefix).unwrap();
    ipnetwork::Ipv4Network::new(ip.into(), prefix).unwrap().overlaps(other)
}

impl Ipv6Network {
    #[verifier::type_invariant]
    spec fn prefix_in_range(self) -> bool {
        self.prefix <= 128
    }

    pub closed spec fn spec_ip(self) -> Ipv6Addr {
        self.addr
    }

    pub closed spec fn spec_prefix(self) -> u8 {
        self.prefix
    }

    /// The network of an address and a prefix length.
    pub closed spec fn of(addr: Ipv6Addr, prefix: u8) -> Self {
        Ipv6Network { addr, prefix }
    }

    pub fn new(addr: Ipv6Addr, prefix: u8) -> (r: Result<Self, FlannelError>)
        ensures
            prefix <= 128 ==> r == Ok::<Self, FlannelError>(Self::of(addr, prefix)),
            prefix > 128 ==> r == Err::<Self, FlannelError>(FlannelError::InvalidPrefix),
    {
        if prefix > 128 {
            return Err(FlannelError::InvalidPrefix);
        }
        Ok(Ipv6Network { addr, prefix })
    }

    #[verifier::when_used_as_spec(spec_ip)]
    pub fn ip(self) -> (r: Ipv6Addr)
        ensures
            r == self.spec_ip(),
    {
        self.addr
    }

    #[verifier::when_used_as_spec(spec_prefix)]
    pub fn prefix(self) -> (r: u8)
        ensures
            r == self.spec_prefix(),
            r <= 128,
    {
        proof {
            use_type_invariant(&self);
        }
        self.prefix
    }

    /// The network that a text holds in CIDR notation.
    pub open spec fn parsed(text: Seq<char>) -> Result<Self, FlannelError> {
        match ipv6_network_of(text) {
            Some((ip, prefix)) => Ok(Self::of(Ipv6Addr { bits: ip }, prefix)),
            None => Err(FlannelError::InvalidNetwork),
        }
    }

    /// Reads a network in CIDR notation.
    pub fn parse(text: &str) -> (r: Result<Self, FlannelError>)
        ensures
            r == Self::parsed(text@),
    {
        match parse_ipv6_network(text) {
            Ok((ip, prefix)) => Self::new(Ipv6Addr { bits: ip }, prefix),
            Err(_) => Err(FlannelError::InvalidNetwork),
        }
    }
}

/// The error that `ipnetwork` gives for a text or a prefix length it refuses.
#[verifier::external_type_specification]
#[verifier::external_body]
pub struct ExIpNetworkError(ipnetwork::IpNetworkError);

/// Address and prefix length that `ipnetwork::Ipv4Network::from_str` reads from a text.
pub uninterp spec fn ipv4_network_of(text: Seq<char>) -> Option<(u32, u8)>;

/// Whether a reader gives back address and prefix length where the text is their CIDR notation.
pub open spec fn reads_back_cidr<E>(text: Seq<char>, r: Result<(u32, u8), E>) -> bool {
    forall|addr: Ipv4Addr, prefix: u8|
        prefix <= 32 && text == #[trigger] cidr_text(addr, prefix) ==> r == Ok::<(u32, u8), E>(
            (addr.bits, prefix),
        )
}

/// Calls `ipnetwork::Ipv4Network::from_str`. Its result is a function of the text, a prefix
/// length that it gives is at most 32, and a dotted decimal address with a slash and a decimal
/// prefix length of at most 32 is read as that address and prefix length.
#[verifier::external_body]
fn parse_ipv4_network(text: &str) -> (r: Result<(u32, u8), ipnetwork::IpNetworkError>)
    ensures
        r is Ok <==> ipv4_network_of(text@) is Some,
        r matches Ok(n) ==> ipv4_network_of(text@) == Some(n),
        r matches Ok(n) ==> n.1 <= 32,
        reads_back_cidr(text@, r),
{
    text.parse::<ipnetwork::Ipv4Network>().map(|n| (n.ip().into(), n.prefix()))
}

/// Address and prefix length that `ipnetwork::Ipv6Network::from_str` reads from a text.
pub uninterp spec fn ipv6_network_of(text: Seq<char>) -> Option<(u128, u8)>;

/// Calls `ipnetwork::Ipv6Network::from_str`. Its result is a function of the text, and a prefix
/// length that it gives is at most 128.
#[verifier::external_body]
fn parse_ipv6_network(text: &str) -> (r: Result<(u128, u8), ipnetwork::IpNetworkError>)
    ensures
        r is Ok <==> ipv6_network_of(text@) is Some,
        r matches Ok(n) ==> ipv6_network_of(text@) == Some(n),
        r matches Ok(n) ==> n.1 <= 128,
{
    text.parse::<ipnetwork::Ipv6Network>().map(|n| (n.ip().into(), n.prefix()))
}

/// Addresses that can be moved up.
pub trait Add: Sized {
    spec fn add_fits(self, n: u32) -> bool;

    spec fn moved_up(self, n: u32) -> Self;

    fn add(self, n: u32) -> (r: Self)
        requires
            self.add_fits(n),
        ensures
            r == self.moved_up(n),
    ;
}

/// Addresses that can be moved down.
pub trait Sub: Sized {
    spec fn sub_fits(self, n: u32) -> bool;

    spec fn moved_down(self, n: u32) -> Self;

    fn sub(self, n: u32) -> (r: Self)
        requires
            self.sub_fits(n),
        ensures
            r == self.moved_down(n),
    ;
}

impl Add for Ipv4Addr {
    open spec fn add_fits(self, n: u32) -> bool {
        self.bits + n <= u32::MAX
    }

    open spec fn moved_up(self, n: u32) -> Self {
        Ipv4Addr { bits: (self.bits + n) as u32 }
    }

    fn add(self, n: u32) -> (r: Self) {
        Ipv4Addr { bits: self.bits + n }
    }
}

impl Sub for Ipv4Addr {
    open spec fn sub_fits(self, n: u32) -> bool {
        self.bits >= n
    }

    open spec fn moved_down(self, n: u32) -> Self {
        Ipv4Addr { bits: (self.bits - n) as u32 }
    }

    fn sub(self, n: u32) -> (r: Self) {
        Ipv4Addr { bits: self.bits - n }
    }
}

/// Networks that have a successor of the same size.
pub trait Ipv4NetworkIterator {
    spec fn next_fits(&self) -> bool;

    spec fn successor(&self) -> Option<Ipv4Network>;

    fn next_network(&self) -> (r: Option<Ipv4Network>)
        requires
            self.next_fits(),
        ensures
            r == self.successor(),
    ;
}

impl Ipv4NetworkIterator for Ipv4Network {
    /// A single address has no successor; the successor of a larger network is an address.
    open spec fn next_fits(&self) -> bool {
        self.prefix() < 32 ==> 0 < self.prefix() && self.ip().bits + block_size(self.prefix())
            <= u32::MAX
    }

    open spec fn successor(&self) -> Option<Ipv4Network> {
        if self.prefix() >= 32 {
            None
        } else {
            Some(
                Ipv4Network::of(
                    Ipv4Addr { bits: (self.ip().bits + block_size(self.prefix())) as u32 },
                    self.prefix(),
                ),
            )
        }
    }

    // 172.17.0.0/16 -> 172.18.0.0/16
    fn next_network(&self) -> (r: Option<Ipv4Network>) {
        proof {
            use_type_invariant(&*self);
        }
        if self.prefix >= 32 {
            return None;
        }
        let next_ip = self.addr.bits + size_of_block(self.prefix);
        Ipv4Network::new(Ipv4Addr { bits: next_ip }, self.prefix).ok()
    }
}

/// Number of addresses that share their first `prefix` bits.
pub fn size_of_block(prefix: u8) -> (r: u32)
    requires
        1 <= prefix <= 32,
    ensures
        r == block_size(prefix),
        r > 0,
{
    let n = 32 - prefix;
    proof {
        block_size_bounds(prefix);
        lemma_u32_shl_is_mul(1, n as u32);
    }
    1u32 << n
}

/// Whether the bits of an address after the first `prefix` are all zero.
pub fn is_aligned(addr: Ipv4Addr, prefix: u8) -> (r: bool)
    requires
        1 <= prefix <= 32,
    ensures
        r == (addr.bits as nat % block_size(prefix) == 0),
{
    let n = (32 - prefix) as u32;
    let mask = 0xffff_ffff_u32 << n;
    let a = addr.bits;
    proof {
        block_size_bounds(prefix);
        lemma_u32_shl_is_mul(1, n);
        lemma_u32_low_bits_mask_is_mod(a, n as nat);
        let low = (block_size(prefix) - 1) as u32;
        assert(low_bits_mask(n as nat) == low) by {
            reveal(low_bits_mask);
        }
        let one = 1u32 << n;
        assert((a == a & (0xffff_ffff_u32 << n)) <==> a & ((1u32 << n) - 1) as u32 == 0)
            by (bit_vector)
            requires
                n < 32,
        ;
    }
    a == a & mask
}

/// A block has at least one and, with a prefix, at most 2^31 addresses.
pub proof fn block_size_bounds(prefix: u8)
    requires
        prefix <= 32,
    ensures
        block_size(prefix) >= 1,
        block_size(prefix) <= 0x1_0000_0000,
        prefix >= 1 ==> block_size(prefix) <= 0x8000_0000,
        prefix == 32 ==> block_size(prefix) == 1,
{
    lemma_pow2_pos((32 - prefix) as nat);
    lemma2_to64();
    if prefix >= 2 {
        lemma_pow2_strictly_increases((32 - prefix) as nat, 31);
    }
}

/// A longer prefix gives a smaller block.
pub proof fn block_size_of_longer(shorter: u8, longer: u8)
    requires
        shorter <= longer <= 32,
    ensures
        block_size(longer) <= block_size(shorter),
{
    if shorter < longer {
        lemma_pow2_strictly_increases((32 - longer) as nat, (32 - shorter) as nat);
    }
}

/// The first bits of an address determine its first bits of every shorter prefix.
pub proof fn block_of_shorter_prefix(addr: Ipv4Addr, shorter: u8, longer: u8)
    requires
        shorter <= longer <= 32,
    ensures
        block(addr, shorter) == block(addr, longer) / pow2((longer - shorter) as nat),
        block_size(shorter) == block_size(longer) * pow2((longer - shorter) as nat),
{
    let m = (32 - longer) as nat;
    let k = (longer - shorter) as nat;
    lemma_pow2_adds(m, k);
    lemma_pow2_pos(m);
    lemma_pow2_pos(k);
    lemma_div_denominator(addr.bits as int, pow2(m) as int, pow2(k) as int);
}

/// A network holds exactly the addresses from its lowest one on, as many as its block has.
pub proof fn network_is_a_range(n: Ipv4Network, addr: Ipv4Addr)
    requires
        n.prefix() <= 32,
    ensures
        ({
            let size = block_size(n.prefix());
            let lowest = block(n.ip(), n.prefix()) * size;
            n.has(addr) <==> lowest <= addr.bits < lowest + size
        }),
{
    let size = block_size(n.prefix()) as int;
    let b = block(n.ip(), n.prefix()) as int;
    block_size_bounds(n.prefix());
    lemma_fundamental_div_mod(addr.bits as int, size);
    if b * size <= addr.bits < b * size + size {
        let rest = addr.bits - b * size;
        assert(addr.bits == b * size + rest);
        assert(addr.bits == size * b + rest) by (nonlinear_arith)
            requires
                addr.bits == b * size + rest,
        ;
        lemma_fundamental_div_mod_converse(addr.bits as int, size, b, rest);
    }
    let q = addr.bits as int / size;
    assert(size * q == q * size) by (nonlinear_arith);
}

/// Two networks overlap exactly when an address lies in both.
pub proof fn overlap_is_a_common_address(a: Ipv4Network, b: Ipv4Network)
    requires
        a.prefix() <= 32,
        b.prefix() <= 32,
    ensures
        a.meets(b) <==> exists|addr: Ipv4Addr| #[trigger] a.has(addr) && b.has(addr),
{
    if a.meets(b) {
        if a.prefix() <= b.prefix() {
            assert(a.has(b.ip()) && b.has(b.ip()));
        } else {
            assert(a.has(a.ip()) && b.has(a.ip()));
        }
    }
    if exists|addr: Ipv4Addr| #[trigger] a.has(addr) && b.has(addr) {
        let addr = choose|addr: Ipv4Addr| #[trigger] a.has(addr) && b.has(addr);
        if a.prefix() <= b.prefix() {
            block_of_shorter_prefix(addr, a.prefix(), b.prefix());
            block_of_shorter_prefix(b.ip(), a.prefix(), b.prefix());
        } else {
            block_of_shorter_prefix(addr, b.prefix(), a.prefix());
            block_of_shorter_prefix(a.ip(), b.prefix(), a.prefix());
        }
    }
}

/// The successor of a network starts where the network ends, and the two do not overlap.
pub proof fn successor_is_adjacent(n: Ipv4Network)
    requires
        0 < n.prefix() < 32,
        n.next_fits(),
    ensures
        n.successor() matches Some(next) && next.prefix() == n.prefix() && block(
            next.ip(),
            n.prefix(),
        ) == block(n.ip(), n.prefix()) + 1 && !n.meets(next),
{
    broadcast use network_of_parts;

    let size = block_size(n.prefix()) as int;
    let ip = n.ip().bits as int;
    block_size_bounds(n.prefix());
    lemma_fundamental_div_mod(ip, size);
    let q = ip / size;
    assert(ip + size == size * (q + 1) + ip % size) by (nonlinear_arith)
        requires
            ip == size * q + ip % size,
    ;
    lemma_fundamental_div_mod_converse(ip + size, size, q + 1, ip % size);
}

/// There are as many blocks of a prefix length as the prefix has values, and together they hold all
/// addresses.
pub proof fn blocks_fill_the_address_space(prefix: u8)
    requires
        prefix <= 32,
    ensures
        block_size(prefix) * pow2(prefix as nat) == 4_294_967_296,
{
    lemma_pow2_adds((32 - prefix) as nat, prefix as nat);
    lemma2_to64();
}

/// A network holds exactly the addresses whose first bits are its own; one without a prefix holds
/// all.
pub proof fn network_holds_what_shares_its_bits(n: Ipv4Network, addr: Ipv4Addr)
    requires
        n.prefix() <= 32,
    ensures
        n.prefix() == 0 ==> n.has(addr),
        n.prefix() > 0 ==> (n.has(addr) <==> addr.bits >> ((32 - n.prefix()) as u32) == n.ip().bits
            >> ((32 - n.prefix()) as u32)),
{
    if n.prefix() == 0 {
        lemma2_to64();
        assert(block_size(0) == 0x1_0000_0000);
        lemma_basic_div(addr.bits as int, 0x1_0000_0000);
        lemma_basic_div(n.ip().bits as int, 0x1_0000_0000);
    } else {
        lemma_u32_shr_is_div(addr.bits, (32 - n.prefix()) as u32);
        lemma_u32_shr_is_div(n.ip().bits, (32 - n.prefix()) as u32);
    }
}

/// The octets of an address, from the most significant one on, are the address again.
pub proof fn octets_make_up_the_address(addr: Ipv4Addr)
    ensures
        octet(addr, 0) < 256 && octet(addr, 1) < 256 && octet(addr, 2) < 256 && octet(addr, 3)
            < 256,
        octet(addr, 0) * 16_777_216 + octet(addr, 1) * 65_536 + octet(addr, 2) * 256 + octet(addr, 3)
            == addr.bits,
{
}

/// An address in text is four decimal numbers between dots, of which each is an octet.
pub proof fn address_text_spells_the_octets(addr: Ipv4Addr)
    ensures
        ({
            let p = split(addr_text(addr), '.');
            &&& p.len() == 4
            &&& forall|i: int| 0 <= i < 4 ==> 0 <= decimal_value(#[trigger] p[i]) < 256
            &&& decimal_value(p[0]) * 16_777_216 + decimal_value(p[1]) * 65_536 + decimal_value(p[2])
                * 256 + decimal_value(p[3]) == addr.bits
        }),
        forall|c: char|
            #[trigger] addr_text(addr).contains(c) ==> '0' <= c <= '9' || c == '.',
{
    let a = decimal(octet(addr, 0));
    let b = decimal(octet(addr, 1));
    let c = decimal(octet(addr, 2));
    let d = decimal(octet(addr, 3));
    decimal_spells_the_number(octet(addr, 0));
    decimal_spells_the_number(octet(addr, 1));
    decimal_spells_the_number(octet(addr, 2));
    decimal_spells_the_number(octet(addr, 3));
    octets_make_up_the_address(addr);
    let cd = c + seq!['.'] + d;
    let bcd = b + seq!['.'] + cd;
    assert(addr_text(addr) =~= a + seq!['.'] + bcd);
    split_after_a_piece(a, bcd, '.');
    split_after_a_piece(b, cd, '.');
    split_after_a_piece(c, d, '.');
    split_of_a_piece(d, '.');
    let p = split(addr_text(addr), '.');
    assert(p =~= seq![a, b, c, d]);
}

/// CIDR notation is the address, a slash and the prefix length in decimal.
pub proof fn cidr_text_spells_address_and_length(addr: Ipv4Addr, prefix: u8)
    ensures
        ({
            let p = split(cidr_text(addr, prefix), '/');
            &&& p.len() == 2
            &&& p[0] == addr_text(addr)
            &&& decimal_value(p[1]) == prefix
        }),
{
    let text = addr_text(addr);
    let len = decimal(prefix as nat);
    address_text_spells_the_octets(addr);
    decimal_spells_the_number(prefix as nat);
    assert(!text.contains('/'));
    split_after_a_piece(text, len, '/');
    split_of_a_piece(len, '/');
    assert(split(cidr_text(addr, prefix), '/') =~= seq![text, len]);
}

/// Different addresses have different texts.
pub proof fn address_text_tells_addresses_apart(a: Ipv4Addr, b: Ipv4Addr)
    ensures
        addr_text(a) == addr_text(b) ==> a == b,
{
    address_text_spells_the_octets(a);
    address_text_spells_the_octets(b);
}

/// An address moves by the number it is moved by, and back.
pub proof fn addresses_move_by_a_number(addr: Ipv4Addr, n: u32)
    ensures
        addr.add_fits(n) <==> addr.bits + n <= 4_294_967_295,
        addr.sub_fits(n) <==> n <= addr.bits,
        addr.add_fits(n) ==> addr.moved_up(n).bits - addr.bits == n && addr.moved_up(n).moved_down(n)
            == addr,
        addr.sub_fits(n) ==> addr.bits - addr.moved_down(n).bits == n,
{
}

/// The next network of the same length is as many addresses further on as the network has; only a
/// single address has no next one.
pub proof fn successor_is_one_network_further(n: Ipv4Network)
    requires
        n.prefix() <= 32,
        n.next_fits(),
    ensures
        n.successor() is None <==> n.prefix() == 32,
        n.successor() matches Some(next) ==> next.prefix() == n.prefix() && next.ip().bits
            - n.ip().bits == pow2((32 - n.prefix()) as nat),
{
    broadcast use network_of_parts;

}

}
