use arp_scan::addr::{HardwareAddress, Ipv4Address};
use arp_scan::iface::{get_default_interface, InterfaceAddress, InterfaceInfo};

fn iface(up: bool, loopback: bool, addresses: Vec<InterfaceAddress>, mac: Option<[u8; 6]>) -> InterfaceInfo {
    InterfaceInfo { up, loopback, addresses, mac: mac.map(HardwareAddress::new) }
}

fn v4(a: u8, b: u8, c: u8, d: u8) -> InterfaceAddress {
    InterfaceAddress::V4(Ipv4Address::new(a, b, c, d))
}

#[test]
fn first_usable_interface_is_chosen() {
    let all = vec![
        iface(true, true, vec![v4(127, 0, 0, 1)], Some([0; 6])),
        iface(false, false, vec![v4(10, 0, 0, 2)], Some([1; 6])),
        iface(true, false, vec![], Some([2; 6])),
        iface(true, false, vec![v4(10, 0, 0, 4)], None),
        iface(true, false, vec![v4(10, 0, 0, 5)], Some([4; 6])),
        iface(true, false, vec![v4(10, 0, 0, 6)], Some([5; 6])),
    ];
    assert_eq!(get_default_interface(&all), Some(4));
}

#[test]
fn no_usable_interface_gives_none() {
    assert_eq!(get_default_interface(&Vec::new()), None);
    let all = vec![
        iface(true, true, vec![v4(127, 0, 0, 1)], Some([0; 6])),
        iface(false, false, vec![v4(10, 0, 0, 2)], Some([1; 6])),
    ];
    assert_eq!(get_default_interface(&all), None);
}

#[test]
fn each_condition_matters() {
    assert!(iface(true, false, vec![InterfaceAddress::V6], Some([1; 6])).is_usable());
    assert!(!iface(false, false, vec![InterfaceAddress::V6], Some([1; 6])).is_usable());
    assert!(!iface(true, true, vec![InterfaceAddress::V6], Some([1; 6])).is_usable());
    assert!(!iface(true, false, vec![], Some([1; 6])).is_usable());
    assert!(!iface(true, false, vec![InterfaceAddress::V6], None).is_usable());
}

#[test]
fn source_ip_is_the_first_ipv4_address() {
    let i = iface(true, false, vec![InterfaceAddress::V6, v4(10, 0, 0, 7), v4(10, 0, 0, 8)], Some([1; 6]));
    assert_eq!(i.source_ip(), Ipv4Address::new(10, 0, 0, 7));
}

#[test]
fn source_ip_without_ipv4_is_unspecified() {
    let i = iface(true, false, vec![InterfaceAddress::V6, InterfaceAddress::V6], Some([1; 6]));
    assert_eq!(i.source_ip(), Ipv4Address::new(0, 0, 0, 0));
    let i = iface(true, false, vec![], Some([1; 6]));
    assert_eq!(i.source_ip(), Ipv4Address::new(0, 0, 0, 0));
}

#[test]
fn source_mac_falls_back_to_zero() {
    let i = iface(true, false, vec![], Some([9, 8, 7, 6, 5, 4]));
    assert_eq!(i.source_mac(), HardwareAddress::new([9, 8, 7, 6, 5, 4]));
    let i = iface(true, false, vec![], None);
    assert_eq!(i.source_mac(), HardwareAddress::zero());
}
