use arp_scan::addr::Ipv4Address;
use arp_scan::cidr::{parse_address, parse_cidr, parse_octet, parse_prefix_len, CidrError, Subnet};

fn chars(s: &str) -> Vec<char> {
    s.chars().collect()
}

fn all_hosts(subnet: &Subnet) -> Vec<Ipv4Address> {
    let mut range = subnet.hosts();
    let mut out = Vec::new();
    while let Some(ip) = range.next_host() {
        out.push(ip);
    }
    out
}

#[test]
fn slash_24_yields_254_hosts_in_order() {
    let subnet = parse_cidr("192.168.1.0/24").unwrap();
    let hosts = all_hosts(&subnet);
    assert_eq!(hosts.len(), 254);
    assert_eq!(subnet.host_count(), 254);
    assert_eq!(hosts[0], Ipv4Address::new(192, 168, 1, 1));
    assert_eq!(hosts[253], Ipv4Address::new(192, 168, 1, 254));
    for (i, ip) in hosts.iter().enumerate() {
        assert_eq!(*ip, Ipv4Address::new(192, 168, 1, i as u8 + 1));
    }
}

#[test]
fn slash_32_yields_nothing() {
    let subnet = parse_cidr("10.0.0.0/32").unwrap();
    assert_eq!(subnet.host_count(), 0);
    assert_eq!(subnet.block_size(), 1);
    assert_eq!(all_hosts(&subnet), Vec::new());
    assert_eq!(subnet.host_at(0), None);
    let mut range = subnet.hosts();
    assert_eq!(range.remaining(), 0);
    assert_eq!(range.next_host(), None);
    assert_eq!(range.next_host(), None);
}

#[test]
fn slash_31_yields_nothing() {
    let subnet = parse_cidr("10.0.0.0/31").unwrap();
    assert_eq!(subnet.block_size(), 2);
    assert_eq!(subnet.host_count(), 0);
    assert_eq!(all_hosts(&subnet), Vec::new());
}

#[test]
fn slash_30_yields_two_hosts() {
    let subnet = parse_cidr("10.0.0.4/30").unwrap();
    assert_eq!(
        all_hosts(&subnet),
        vec![Ipv4Address::new(10, 0, 0, 5), Ipv4Address::new(10, 0, 0, 6)]
    );
}

#[test]
fn host_count_is_block_size_less_two_for_every_prefix() {
    for n in 0u8..=32 {
        let subnet = Subnet::new(Ipv4Address::new(10, 1, 2, 3), n).unwrap();
        let size: u64 = 1u64 << (32 - n as u32);
        assert_eq!(subnet.block_size(), size);
        assert_eq!(subnet.host_count(), size.saturating_sub(2));
        assert_eq!(subnet.hosts().remaining(), size.saturating_sub(2));
    }
}

#[test]
fn slash_0_spans_the_whole_address_space() {
    let subnet = parse_cidr("203.0.113.9/0").unwrap();
    assert_eq!(subnet.host_count(), 4_294_967_294);
    assert_eq!(subnet.network(), Ipv4Address::new(0, 0, 0, 0));
    assert_eq!(subnet.host_at(0), Some(Ipv4Address::new(0, 0, 0, 1)));
    assert_eq!(subnet.host_at(4_294_967_293), Some(Ipv4Address::new(255, 255, 255, 254)));
    assert_eq!(subnet.host_at(4_294_967_294), None);
}

#[test]
fn base_is_masked_to_the_network() {
    let subnet = parse_cidr("192.168.1.77/24").unwrap();
    assert_eq!(subnet.base_address(), Ipv4Address::new(192, 168, 1, 77));
    assert_eq!(subnet.network(), Ipv4Address::new(192, 168, 1, 0));
    assert_eq!(subnet.host_at(0), Some(Ipv4Address::new(192, 168, 1, 1)));
    let subnet = parse_cidr("172.16.200.9/20").unwrap();
    assert_eq!(subnet.network(), Ipv4Address::new(172, 16, 192, 0));
    assert_eq!(subnet.host_count(), 4094);
    assert_eq!(subnet.host_at(4093), Some(Ipv4Address::new(172, 16, 207, 254)));
    let subnet = parse_cidr("1.2.3.4/32").unwrap();
    assert_eq!(subnet.network(), Ipv4Address::new(1, 2, 3, 4));
}

#[test]
fn network_matches_the_bit_mask() {
    for n in 0u32..=32 {
        for base in [0u32, 1, 0xC0A8_014D, 0x7FFF_FFFF, 0x8000_0000, 0xFFFF_FFFF, 0x1234_5678] {
            let ip = arp_scan::addr::u32_to_ip(base);
            let subnet = Subnet::new(ip, n as u8).unwrap();
            let mask = if n == 32 { 0 } else { 0xFFFF_FFFFu32 >> n };
            assert_eq!(arp_scan::addr::ip_to_u32(subnet.network()), base & !mask);
        }
    }
}

#[test]
fn hosts_can_be_walked_again() {
    let subnet = parse_cidr("10.0.0.0/29").unwrap();
    let first = all_hosts(&subnet);
    let second = all_hosts(&subnet);
    assert_eq!(first.len(), 6);
    assert_eq!(first, second);
}

#[test]
fn host_range_counts_down() {
    let subnet = parse_cidr("10.0.0.0/30").unwrap();
    let mut range = subnet.hosts();
    assert_eq!(range.remaining(), 2);
    assert_eq!(range.next_host(), Some(Ipv4Address::new(10, 0, 0, 1)));
    assert_eq!(range.remaining(), 1);
    assert_eq!(range.next_host(), Some(Ipv4Address::new(10, 0, 0, 2)));
    assert_eq!(range.remaining(), 0);
    assert_eq!(range.next_host(), None);
}

#[test]
fn highest_block_does_not_wrap() {
    let subnet = parse_cidr("255.255.255.255/30").unwrap();
    assert_eq!(
        all_hosts(&subnet),
        vec![Ipv4Address::new(255, 255, 255, 253), Ipv4Address::new(255, 255, 255, 254)]
    );
}

#[test]
fn parse_keeps_address_and_prefix() {
    let subnet = parse_cidr("10.20.30.40/8").unwrap();
    assert_eq!(subnet.base_address(), Ipv4Address::new(10, 20, 30, 40));
    assert_eq!(subnet.prefix_len(), 8);
}

#[test]
fn every_prefix_length_up_to_32_parses() {
    for n in 0..=32 {
        let text = format!("10.0.0.0/{}", n);
        assert_eq!(parse_cidr(&text).unwrap().prefix_len(), n);
    }
}

#[test]
fn missing_slash_is_bad_format() {
    assert_eq!(parse_cidr("192.168.1.0"), Err(CidrError::BadFormat));
    assert_eq!(parse_cidr(""), Err(CidrError::BadFormat));
    assert_eq!(parse_cidr("24"), Err(CidrError::BadFormat));
}

#[test]
fn two_slashes_are_bad_format() {
    assert_eq!(parse_cidr("192.168.1.0/24/8"), Err(CidrError::BadFormat));
    assert_eq!(parse_cidr("//"), Err(CidrError::BadFormat));
    assert_eq!(parse_cidr("not an address/24/"), Err(CidrError::BadFormat));
}

#[test]
fn bad_octets_are_bad_address() {
    assert_eq!(parse_cidr("256.1.1.1/24"), Err(CidrError::BadAddress));
    assert_eq!(parse_cidr("1.2.3/24"), Err(CidrError::BadAddress));
    assert_eq!(parse_cidr("1.2.3.4.5/24"), Err(CidrError::BadAddress));
    assert_eq!(parse_cidr("1..3.4/24"), Err(CidrError::BadAddress));
    assert_eq!(parse_cidr("a.b.c.d/24"), Err(CidrError::BadAddress));
    assert_eq!(parse_cidr("/24"), Err(CidrError::BadAddress));
    assert_eq!(parse_cidr(" 1.2.3.4/24"), Err(CidrError::BadAddress));
    assert_eq!(parse_cidr("1.2.3.4 /24"), Err(CidrError::BadAddress));
    assert_eq!(parse_cidr("01.2.3.4/24"), Err(CidrError::BadAddress));
    assert_eq!(parse_cidr("1.2.3.0004/24"), Err(CidrError::BadAddress));
    assert_eq!(parse_cidr("1.2.3.-4/24"), Err(CidrError::BadAddress));
    assert_eq!(parse_cidr("1.2.3.+4/24"), Err(CidrError::BadAddress));
    assert_eq!(parse_cidr("1.2.3.999/24"), Err(CidrError::BadAddress));
}

#[test]
fn bad_prefixes_are_bad_prefix() {
    assert_eq!(parse_cidr("10.0.0.0/33"), Err(CidrError::BadPrefix));
    assert_eq!(parse_cidr("10.0.0.0/abc"), Err(CidrError::BadPrefix));
    assert_eq!(parse_cidr("10.0.0.0/"), Err(CidrError::BadPrefix));
    assert_eq!(parse_cidr("10.0.0.0/-1"), Err(CidrError::BadPrefix));
    assert_eq!(parse_cidr("10.0.0.0/+"), Err(CidrError::BadPrefix));
    assert_eq!(parse_cidr("10.0.0.0/24 "), Err(CidrError::BadPrefix));
    assert_eq!(parse_cidr("10.0.0.0/ 24"), Err(CidrError::BadPrefix));
    assert_eq!(parse_cidr("10.0.0.0/2.4"), Err(CidrError::BadPrefix));
    assert_eq!(parse_cidr("10.0.0.0/4294967296"), Err(CidrError::BadPrefix));
    assert_eq!(parse_cidr("10.0.0.0/99999999999999999999999"), Err(CidrError::BadPrefix));
    assert_eq!(parse_cidr("10.0.0.0/256"), Err(CidrError::BadPrefix));
    assert_eq!(parse_cidr("10.0.0.0/320"), Err(CidrError::BadPrefix));
}

#[test]
fn address_is_judged_before_prefix() {
    assert_eq!(parse_cidr("300.0.0.0/99"), Err(CidrError::BadAddress));
}

#[test]
fn prefix_takes_a_sign_and_leading_zeros() {
    assert_eq!(parse_cidr("10.0.0.0/+24").unwrap().prefix_len(), 24);
    assert_eq!(parse_cidr("10.0.0.0/024").unwrap().prefix_len(), 24);
    assert_eq!(parse_cidr("10.0.0.0/0000000000000000000032").unwrap().prefix_len(), 32);
    assert_eq!(parse_cidr("10.0.0.0/+0").unwrap().prefix_len(), 0);
}

#[test]
fn prefix_parser_agrees_with_the_integer_parser() {
    for text in ["0", "7", "32", "33", "+5", "-5", "", "+", "007", "3 ", "x", "4294967295", "٣"] {
        let expected = text.parse::<u32>().ok().filter(|n| *n <= 32).map(|n| n as u8);
        assert_eq!(parse_prefix_len(&chars(text)), expected, "{:?}", text);
    }
}

#[test]
fn octet_parser_reads_plain_numerals() {
    assert_eq!(parse_octet(&chars("0")), Some(0));
    assert_eq!(parse_octet(&chars("9")), Some(9));
    assert_eq!(parse_octet(&chars("10")), Some(10));
    assert_eq!(parse_octet(&chars("255")), Some(255));
    assert_eq!(parse_octet(&chars("256")), None);
    assert_eq!(parse_octet(&chars("00")), None);
    assert_eq!(parse_octet(&chars("010")), None);
    assert_eq!(parse_octet(&chars("")), None);
    assert_eq!(parse_octet(&chars("1234")), None);
    assert_eq!(parse_octet(&chars("1a")), None);
    assert_eq!(parse_octet(&chars("+1")), None);
}

#[test]
fn address_parser_reads_four_octets() {
    assert_eq!(parse_address(&chars("0.0.0.0")), Some(Ipv4Address::new(0, 0, 0, 0)));
    assert_eq!(parse_address(&chars("255.255.255.255")), Some(Ipv4Address::new(255, 255, 255, 255)));
    assert_eq!(parse_address(&chars("1.2.3.4")), Some(Ipv4Address::new(1, 2, 3, 4)));
    assert_eq!(parse_address(&chars("1.2.3.4.")), None);
    assert_eq!(parse_address(&chars(".1.2.3.4")), None);
    assert_eq!(parse_address(&chars("1.2.3")), None);
    assert_eq!(parse_address(&chars("")), None);
}

#[test]
fn subnet_new_refuses_long_prefixes() {
    assert!(Subnet::new(Ipv4Address::new(1, 2, 3, 4), 32).is_some());
    assert!(Subnet::new(Ipv4Address::new(1, 2, 3, 4), 33).is_none());
    assert!(Subnet::new(Ipv4Address::new(1, 2, 3, 4), 255).is_none());
}

#[test]
fn host_takes_an_index_in_range() {
    let subnet = parse_cidr("10.9.8.0/24").unwrap();
    assert_eq!(subnet.host(0), Ipv4Address::new(10, 9, 8, 1));
    assert_eq!(subnet.host(99), Ipv4Address::new(10, 9, 8, 100));
    assert_eq!(subnet.host(253), Ipv4Address::new(10, 9, 8, 254));
    assert_eq!(subnet.host_at(254), None);
}
