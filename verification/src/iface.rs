//! Network interfaces, as far as choosing one for a scan needs to know them.

use vstd::prelude::*;
use crate::addr::{HardwareAddress, Ipv4Address};

verus! {

/// An address assigned to an interface.
#[derive(Clone, Copy, Debug, PartialEq, Eq)]
pub enum InterfaceAddress {
    V4(Ipv4Address),
    /// An IPv6 address; a scan has no use for which.
    V6,
}

/// What the operating system tells of one network interface.
#[derive(Clone, Debug, PartialEq, Eq)]
pub struct InterfaceInfo {
    /// The interface is administratively up.
    pub up: bool,
    /// The interface is the loopback device.
    pub loopback: bool,
    /// The addresses assigned to the interface, in the system's order.
    pub addresses: Vec<InterfaceAddress>,
    /// The hardware address of the interface, if it has one.
    pub mac: Option<HardwareAddress>,
}

/// Whether a scan can run on an interface: it is up, is not the loopback
/// device, has an address assigned and has a hardware address.
pub open spec fn usable(iface: InterfaceInfo) -> bool {
    iface.up && !iface.loopback && iface.addresses@.len() > 0 && iface.mac is Some
}

/// Whether `at` is the position of the first IPv4 address in `addresses`.
pub open spec fn first_v4_at(addresses: Seq<InterfaceAddress>, at: int) -> bool {
    &&& 0 <= at < addresses.len()
    &&& addresses[at] is V4
    &&& forall|j: int| 0 <= j < at ==> !(addresses[j] is V4)
}

/// Whether `addresses` holds no IPv4 address.
pub open spec fn no_v4(addresses: Seq<InterfaceAddress>) -> bool {
    forall|j: int| 0 <= j < addresses.len() ==> !(addresses[j] is V4)
}

/// Whether `ip` is the protocol address that requests sent from an
/// interface with these addresses name as their source: the first IPv4
/// address among them, or `0.0.0.0` where there is none.
pub open spec fn is_source_ip(addresses: Seq<InterfaceAddress>, ip: Ipv4Address) -> bool {
    &&& no_v4(addresses) ==> ip@ == seq![0u8, 0u8, 0u8, 0u8]
    &&& forall|at: int| first_v4_at(addresses, at) ==> addresses[at] == InterfaceAddress::V4(ip)
}

/// Whether `mac` is the hardware address that requests sent from an
/// interface name as their source: its own, or zero where it has none.
pub open spec fn is_source_mac(own: Option<HardwareAddress>, mac: HardwareAddress) -> bool {
    match own {
        Some(m) => mac == m,
        None => mac@ == crate::addr::zero_bytes(),
    }
}

impl InterfaceInfo {
    /// Whether a scan can run on this interface.
    pub fn is_usable(&self) -> (r: bool)
        ensures
            r == usable(*self),
    {
        self.up && !self.loopback && self.addresses.len() > 0 && self.mac.is_some()
    }

    /// The hardware address that requests sent from this interface name as
    /// their source: its own, or zero where it has none.
    pub fn source_mac(&self) -> (r: HardwareAddress)
        ensures
            is_source_mac(self.mac, r),
    {
        match self.mac {
            Some(mac) => mac,
            None => HardwareAddress::zero(),
        }
    }

    /// The protocol address that requests sent from this interface name as
    /// their source: the first IPv4 address assigned to it, or `0.0.0.0`
    /// where it has none.
    pub fn source_ip(&self) -> (r: Ipv4Address)
        ensures
            is_source_ip(self.addresses@, r),
    {
        let mut i: usize = 0;
        while i < self.addresses.len()
            invariant
                i <= self.addresses@.len(),
                forall|j: int| 0 <= j < i ==> !(self.addresses@[j] is V4),
            decreases self.addresses@.len() - i,
        {
            match self.addresses[i] {
                InterfaceAddress::V4(ip) => {
                    assert forall|at: int| first_v4_at(self.addresses@, at) implies at == i by {
                        if at > i {
                            assert(self.addresses@[i as int] is V4);
                        }
                    }
                    return ip;
                },
                InterfaceAddress::V6 => {},
            }
            i += 1;
        }
        Ipv4Address::unspecified()
    }
}

/// Chooses the interface to scan on: the first usable one, in the order
/// given. The result is its position.
pub fn get_default_interface(interfaces: &Vec<InterfaceInfo>) -> (r: Option<usize>)
    ensures
        match r {
            Some(at) => at < interfaces@.len() && usable(interfaces@[at as int]) && forall|j: int|
                0 <= j < at ==> !usable(#[trigger] interfaces@[j]),
            None => forall|j: int|
                0 <= j < interfaces@.len() ==> !usable(#[trigger] interfaces@[j]),
        },
{
    let mut i: usize = 0;
    while i < interfaces.len()
        invariant
            i <= interfaces@.len(),
            forall|j: int| 0 <= j < i ==> !usable(#[trigger] interfaces@[j]),
        decreases interfaces@.len() - i,
    {
        if interfaces[i].is_usable() {
            return Some(i);
        }
        i += 1;
    }
    None
}

} // verus!
