use arp_scan::addr::{ip_to_u32, u32_to_ip, HardwareAddress, Ipv4Address};

#[test]
fn broadcast_is_all_ones() {
    assert_eq!(HardwareAddress::broadcast().octets(), [0xff; 6]);
}

#[test]
fn zero_is_all_zeros() {
    assert_eq!(HardwareAddress::zero().octets(), [0; 6]);
}

#[test]
fn hardware_addresses_compare_by_bytes() {
    let a = HardwareAddress::new([1, 2, 3, 4, 5, 6]);
    let b = HardwareAddress::new([1, 2, 3, 4, 5, 6]);
    let c = HardwareAddress::new([1, 2, 3, 4, 5, 7]);
    assert_eq!(a, b);
    assert_ne!(a, c);
}

#[test]
fn address_to_number_is_big_endian() {
    assert_eq!(ip_to_u32(Ipv4Address::new(192, 168, 1, 0)), 0xC0A8_0100);
    assert_eq!(ip_to_u32(Ipv4Address::new(0, 0, 0, 0)), 0);
    assert_eq!(ip_to_u32(Ipv4Address::new(255, 255, 255, 255)), u32::MAX);
    assert_eq!(ip_to_u32(Ipv4Address::new(1, 2, 3, 4)), 0x0102_0304);
}

#[test]
fn number_to_address_is_big_endian() {
    assert_eq!(u32_to_ip(0xC0A8_0101), Ipv4Address::new(192, 168, 1, 1));
    assert_eq!(u32_to_ip(0), Ipv4Address::new(0, 0, 0, 0));
    assert_eq!(u32_to_ip(u32::MAX), Ipv4Address::new(255, 255, 255, 255));
    assert_eq!(u32_to_ip(0x0A00_0005), Ipv4Address::new(10, 0, 0, 5));
}

#[test]
fn number_and_address_round_trip() {
    for n in [0u32, 1, 255, 256, 65535, 65536, 0x00FF_FFFF, 0x0100_0000, 0xDEAD_BEEF, u32::MAX] {
        assert_eq!(ip_to_u32(u32_to_ip(n)), n);
    }
    for octets in [[0u8, 0, 0, 1], [10, 0, 0, 1], [172, 16, 254, 3], [255, 0, 255, 0]] {
        let ip = Ipv4Address { octets };
        assert_eq!(u32_to_ip(ip_to_u32(ip)), ip);
    }
}

#[test]
fn unspecified_is_all_zeros() {
    assert_eq!(Ipv4Address::unspecified(), Ipv4Address::new(0, 0, 0, 0));
}
