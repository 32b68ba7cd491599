//! Discovery of live hosts on a local IPv4 subnet by ARP sweep.
//!
//! The library holds the rules of a sweep: which addresses a subnet
//! offers, what a request frame looks like on the wire, which inbound
//! frames count as answers, how a vendor registry is read, and in what
//! order a scan proceeds. Sockets, clocks and files belong to the caller.

pub mod addr;
pub mod cidr;
pub mod frame;
pub mod iface;
pub mod scan;
pub mod text;
pub mod vendor;
