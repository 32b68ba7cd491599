//! Link-layer and network-layer addresses.

use vstd::prelude::*;

verus! {

/// A 6-byte link-layer address.
#[derive(Clone, Copy, Debug, PartialEq, Eq, Hash)]
pub struct HardwareAddress {
    pub bytes: [u8; 6],
}

impl View for HardwareAddress {
    type V = Seq<u8>;

    open spec fn view(&self) -> Seq<u8> {
        self.bytes@
    }
}

/// The six bytes of the broadcast address.
pub open spec fn broadcast_bytes() -> Seq<u8> {
    seq![0xffu8, 0xffu8, 0xffu8, 0xffu8, 0xffu8, 0xffu8]
}

/// The six bytes of the placeholder for an address not yet known.
pub open spec fn zero_bytes() -> Seq<u8> {
    seq![0u8, 0u8, 0u8, 0u8, 0u8, 0u8]
}

impl HardwareAddress {
    /// The address with the given bytes.
    pub fn new(bytes: [u8; 6]) -> (r: HardwareAddress)
        ensures
            r@ == bytes@,
    {
        HardwareAddress { bytes }
    }

    /// The address that every station on the link accepts.
    pub fn broadcast() -> (r: HardwareAddress)
        ensures
            r@ == broadcast_bytes(),
    {
        let r = HardwareAddress { bytes: [0xff, 0xff, 0xff, 0xff, 0xff, 0xff] };
        assert(r@ =~= broadcast_bytes());
        r
    }

    /// The placeholder for an address that is not known.
    pub fn zero() -> (r: HardwareAddress)
        ensures
            r@ == zero_bytes(),
    {
        let r = HardwareAddress { bytes: [0, 0, 0, 0, 0, 0] };
        assert(r@ =~= zero_bytes());
        r
    }

    /// The six bytes of the address.
    pub fn octets(&self) -> (r: [u8; 6])
        ensures
            r@ == self@,
    {
        self.bytes
    }
}

/// A 4-byte network address, most significant byte first.
#[derive(Clone, Copy, Debug, PartialEq, Eq, Hash)]
pub struct Ipv4Address {
    pub octets: [u8; 4],
}

impl View for Ipv4Address {
    type V = Seq<u8>;

    open spec fn view(&self) -> Seq<u8> {
        self.octets@
    }
}

/// The number that four octets spell when read most significant byte first.
pub open spec fn be_value(o: Seq<u8>) -> int {
    o[0] * 0x100_0000 + o[1] * 0x1_0000 + o[2] * 0x100 + o[3]
}

/// The four octets that spell `n` most significant byte first.
pub open spec fn be_octets(n: int) -> Seq<u8> {
    seq![
        (n / 0x100_0000 % 0x100) as u8,
        (n / 0x1_0000 % 0x100) as u8,
        (n / 0x100 % 0x100) as u8,
        (n % 0x100) as u8,
    ]
}

impl Ipv4Address {
    /// The address `a.b.c.d`.
    pub fn new(a: u8, b: u8, c: u8, d: u8) -> (r: Ipv4Address)
        ensures
            r@ == seq![a, b, c, d],
    {
        let r = Ipv4Address { octets: [a, b, c, d] };
        assert(r@ =~= seq![a, b, c, d]);
        r
    }

    /// The address `0.0.0.0`.
    pub fn unspecified() -> (r: Ipv4Address)
        ensures
            r@ == seq![0u8, 0u8, 0u8, 0u8],
    {
        Ipv4Address::new(0, 0, 0, 0)
    }

    /// The number that the address spells.
    pub open spec fn value(&self) -> int {
        be_value(self@)
    }
}

/// The address as a 32-bit number, most significant byte first.
pub fn ip_to_u32(ip: Ipv4Address) -> (n: u32)
    ensures
        n == ip.value(),
{
    let a: u32 = ip.octets[0] as u32;
    let b: u32 = ip.octets[1] as u32;
    let c: u32 = ip.octets[2] as u32;
    let d: u32 = ip.octets[3] as u32;
    a * 0x100_0000 + b * 0x1_0000 + c * 0x100 + d
}

/// The address that a 32-bit number spells, most significant byte first.
pub fn u32_to_ip(n: u32) -> (ip: Ipv4Address)
    ensures
        ip@ == be_octets(n as int),
        ip.value() == n,
{
    let a: u8 = (n / 0x100_0000) as u8;
    let b: u8 = (n / 0x1_0000 % 0x100) as u8;
    let c: u8 = (n / 0x100 % 0x100) as u8;
    let d: u8 = (n % 0x100) as u8;
    let ip = Ipv4Address { octets: [a, b, c, d] };
    assert(ip@ =~= be_octets(n as int));
    ip
}

/// Turning a number into an address and back gives the number.
pub proof fn lemma_value_of_octets(n: int)
    requires
        0 <= n <= u32::MAX,
    ensures
        be_octets(n).len() == 4,
        be_value(be_octets(n)) == n,
{
}

/// Turning an address into a number and back gives the address.
pub proof fn lemma_octets_of_value(o: Seq<u8>)
    requires
        o.len() == 4,
    ensures
        0 <= be_value(o) <= u32::MAX,
        be_octets(be_value(o)) == o,
{
    let a = o[0] as int;
    let b = o[1] as int;
    let c = o[2] as int;
    let d = o[3] as int;
    let v = be_value(o);
    let hi3 = a * 0x1_0000 + b * 0x100 + c;
    let hi2 = a * 0x100 + b;
    assert(v == hi3 * 0x100 + d);
    assert(v / 0x100 == hi3 && v % 0x100 == d);
    assert(hi3 == hi2 * 0x100 + c);
    assert(hi3 / 0x100 == hi2 && hi3 % 0x100 == c);
    assert(v / 0x1_0000 == hi2) by {
        assert(v == hi2 * 0x1_0000 + (c * 0x100 + d));
    }
    assert(hi2 / 0x100 == a && hi2 % 0x100 == b);
    assert(v / 0x100_0000 == a) by {
        assert(v == a * 0x100_0000 + (b * 0x1_0000 + c * 0x100 + d));
    }
    assert(be_octets(v) =~= o);
}

/// Two addresses that spell the same number are the same address.
pub proof fn lemma_value_injective(a: Seq<u8>, b: Seq<u8>)
    requires
        a.len() == 4,
        b.len() == 4,
        be_value(a) == be_value(b),
    ensures
        a == b,
{
    lemma_octets_of_value(a);
    lemma_octets_of_value(b);
}

} // verus!
