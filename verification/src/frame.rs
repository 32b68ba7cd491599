//! Ethernet frames that carry ARP, as bytes on the wire.
//!
//! A frame is a 14-byte Ethernet header followed by a 28-byte ARP packet.
//! The fields are written and read by `pnet`'s packet types; this module
//! states where each field lies and proves what the whole frame holds.

use vstd::prelude::*;
use pnet::packet::Packet;
use pnet::packet::arp::{ArpHardwareType, ArpOperation, ArpPacket, MutableArpPacket};
use pnet::packet::ethernet::{EtherType, EthernetPacket, MutableEthernetPacket};
use pnet::util::MacAddr;
use crate::addr::{HardwareAddress, Ipv4Address, broadcast_bytes, zero_bytes};

verus! {

/// Length of an Ethernet header.
pub const ETHERNET_HEADER_LEN: usize = 14;

/// Length of an ARP packet for IPv4 over Ethernet.
pub const ARP_PACKET_LEN: usize = 28;

/// Length of an Ethernet frame that carries one ARP packet.
pub const FRAME_LEN: usize = 42;

/// The Ethernet type of IPv4, which is also ARP's protocol type for it.
pub const ETHERTYPE_IPV4: u16 = 0x0800;

/// The Ethernet type of ARP.
pub const ETHERTYPE_ARP: u16 = 0x0806;

/// ARP's hardware type for Ethernet.
pub const ARP_HARDWARE_ETHERNET: u16 = 1;

/// The ARP operation "request".
pub const ARP_REQUEST: u16 = 1;

/// The ARP operation "reply".
pub const ARP_REPLY: u16 = 2;

/// `s` with the bytes from `at` on replaced by `b`.
pub open spec fn put(s: Seq<u8>, at: int, b: Seq<u8>) -> Seq<u8> {
    Seq::new(s.len(), |i: int| if at <= i < at + b.len() { b[i - at] } else { s[i] })
}

/// The two bytes of a 16-bit field, most significant first.
pub open spec fn be16(v: u16) -> Seq<u8> {
    seq![(v / 0x100) as u8, (v % 0x100) as u8]
}

/// The 16-bit field that starts at `at`.
pub open spec fn word_at(s: Seq<u8>, at: int) -> int {
    s[at] * 0x100 + s[at + 1]
}

/// Writes the destination address of the Ethernet header in `buf`
/// (`MutableEthernetPacket::new` over `buf`, then `set_destination`): bytes
/// 0 to 5.
#[verifier::external_body]
fn eth_set_destination(buf: &mut Vec<u8>, mac: [u8; 6])
    requires
        old(buf)@.len() >= ETHERNET_HEADER_LEN,
    ensures
        final(buf)@ == put(old(buf)@, 0, mac@),
{
    if let Some(mut p) = MutableEthernetPacket::new(buf) {
        p.set_destination(MacAddr::from(mac));
    }
}

/// Writes the source address of the Ethernet header in `buf`
/// (`MutableEthernetPacket::new` over `buf`, then `set_source`): bytes 6 to
/// 11.
#[verifier::external_body]
fn eth_set_source(buf: &mut Vec<u8>, mac: [u8; 6])
    requires
        old(buf)@.len() >= ETHERNET_HEADER_LEN,
    ensures
        final(buf)@ == put(old(buf)@, 6, mac@),
{
    if let Some(mut p) = MutableEthernetPacket::new(buf) {
        p.set_source(MacAddr::from(mac));
    }
}

/// Writes the type field of the Ethernet header in `buf`
/// (`MutableEthernetPacket::new` over `buf`, then `set_ethertype`): bytes 12
/// and 13, most significant first.
#[verifier::external_body]
fn eth_set_ethertype(buf: &mut Vec<u8>, ethertype: u16)
    requires
        old(buf)@.len() >= ETHERNET_HEADER_LEN,
    ensures
        final(buf)@ == put(old(buf)@, 12, be16(ethertype)),
{
    if let Some(mut p) = MutableEthernetPacket::new(buf) {
        p.set_ethertype(EtherType(ethertype));
    }
}

/// Copies `payload` behind the Ethernet header in `buf`
/// (`MutableEthernetPacket::new` over `buf`, then `set_payload`): from byte
/// 14 on. The call panics where the payload does not fit, so the buffer
/// must hold it.
#[verifier::external_body]
fn eth_set_payload(buf: &mut Vec<u8>, payload: &Vec<u8>)
    requires
        old(buf)@.len() >= ETHERNET_HEADER_LEN + payload@.len(),
    ensures
        final(buf)@ == put(old(buf)@, 14, payload@),
{
    if let Some(mut p) = MutableEthernetPacket::new(buf) {
        p.set_payload(payload);
    }
}

/// Writes the hardware type of the ARP packet in `buf`
/// (`MutableArpPacket::new` over `buf`, then `set_hardware_type`): bytes 0 and 1,
/// most significant first.
#[verifier::external_body]
fn arp_set_hardware_type(buf: &mut Vec<u8>, hardware: u16)
    requires
        old(buf)@.len() >= ARP_PACKET_LEN,
    ensures
        final(buf)@ == put(old(buf)@, 0, be16(hardware)),
{
    if let Some(mut p) = MutableArpPacket::new(buf) {
        p.set_hardware_type(ArpHardwareType(hardware));
    }
}

/// Writes the protocol type of the ARP packet in `buf`
/// (`MutableArpPacket::new` over `buf`, then `set_protocol_type`): bytes 2 and 3,
/// most significant first.
#[verifier::external_body]
fn arp_set_protocol_type(buf: &mut Vec<u8>, protocol: u16)
    requires
        old(buf)@.len() >= ARP_PACKET_LEN,
    ensures
        final(buf)@ == put(old(buf)@, 2, be16(protocol)),
{
    if let Some(mut p) = MutableArpPacket::new(buf) {
        p.set_protocol_type(EtherType(protocol));
    }
}

/// Writes the hardware address length of the ARP packet in `buf`
/// (`MutableArpPacket::new` over `buf`, then `set_hw_addr_len`): byte 4.
#[verifier::external_body]
fn arp_set_hw_addr_len(buf: &mut Vec<u8>, len: u8)
    requires
        old(buf)@.len() >= ARP_PACKET_LEN,
    ensures
        final(buf)@ == put(old(buf)@, 4, seq![len]),
{
    if let Some(mut p) = MutableArpPacket::new(buf) {
        p.set_hw_addr_len(len);
    }
}

/// Writes the protocol address length of the ARP packet in `buf`
/// (`MutableArpPacket::new` over `buf`, then `set_proto_addr_len`): byte 5.
#[verifier::external_body]
fn arp_set_proto_addr_len(buf: &mut Vec<u8>, len: u8)
    requires
        old(buf)@.len() >= ARP_PACKET_LEN,
    ensures
        final(buf)@ == put(old(buf)@, 5, seq![len]),
{
    if let Some(mut p) = MutableArpPacket::new(buf) {
        p.set_proto_addr_len(len);
    }
}

/// Writes the operation of the ARP packet in `buf`
/// (`MutableArpPacket::new` over `buf`, then `set_operation`): bytes 6 and 7,
/// most significant first.
#[verifier::external_body]
fn arp_set_operation(buf: &mut Vec<u8>, operation: u16)
    requires
        old(buf)@.len() >= ARP_PACKET_LEN,
    ensures
        final(buf)@ == put(old(buf)@, 6, be16(operation)),
{
    if let Some(mut p) = MutableArpPacket::new(buf) {
        p.set_operation(ArpOperation(operation));
    }
}

/// Writes the sender's hardware address of the ARP packet in `buf`
/// (`MutableArpPacket::new` over `buf`, then `set_sender_hw_addr`): bytes 8 to 13.
#[verifier::external_body]
fn arp_set_sender_hw_addr(buf: &mut Vec<u8>, mac: [u8; 6])
    requires
        old(buf)@.len() >= ARP_PACKET_LEN,
    ensures
        final(buf)@ == put(old(buf)@, 8, mac@),
{
    if let Some(mut p) = MutableArpPacket::new(buf) {
        p.set_sender_hw_addr(MacAddr::from(mac));
    }
}

/// Writes the sender's protocol address of the ARP packet in `buf`
/// (`MutableArpPacket::new` over `buf`, then `set_sender_proto_addr`): bytes 14 to 17.
#[verifier::external_body]
fn arp_set_sender_proto_addr(buf: &mut Vec<u8>, ip: [u8; 4])
    requires
        old(buf)@.len() >= ARP_PACKET_LEN,
    ensures
        final(buf)@ == put(old(buf)@, 14, ip@),
{
    if let Some(mut p) = MutableArpPacket::new(buf) {
        p.set_sender_proto_addr(ip.into());
    }
}

/// Writes the target's hardware address of the ARP packet in `buf`
/// (`MutableArpPacket::new` over `buf`, then `set_target_hw_addr`): bytes 18 to 23.
#[verifier::external_body]
fn arp_set_target_hw_addr(buf: &mut Vec<u8>, mac: [u8; 6])
    requires
        old(buf)@.len() >= ARP_PACKET_LEN,
    ensures
        final(buf)@ == put(old(buf)@, 18, mac@),
{
    if let Some(mut p) = MutableArpPacket::new(buf) {
        p.set_target_hw_addr(MacAddr::from(mac));
    }
}

/// Writes the target's protocol address of the ARP packet in `buf`
/// (`MutableArpPacket::new` over `buf`, then `set_target_proto_addr`): bytes 24 to 27.
#[verifier::external_body]
fn arp_set_target_proto_addr(buf: &mut Vec<u8>, ip: [u8; 4])
    requires
        old(buf)@.len() >= ARP_PACKET_LEN,
    ensures
        final(buf)@ == put(old(buf)@, 24, ip@),
{
    if let Some(mut p) = MutableArpPacket::new(buf) {
        p.set_target_proto_addr(ip.into());
    }
}

/// Reads the type field of an Ethernet frame (`EthernetPacket::new`, then
/// `get_ethertype`): none where the frame is shorter than the header, else
/// bytes 12 and 13, most significant first.
#[verifier::external_body]
fn eth_ethertype(frame: &Vec<u8>) -> (r: Option<u16>)
    ensures
        r is Some <==> frame@.len() >= ETHERNET_HEADER_LEN,
        r is Some ==> r->0 == word_at(frame@, 12),
{
    match EthernetPacket::new(frame) {
        Some(p) => Some(p.get_ethertype().0),
        None => None,
    }
}

/// Copies the payload of an Ethernet frame (`EthernetPacket::new`, then
/// `payload`): none where the frame is shorter than the header, else all
/// that follows byte 13.
#[verifier::external_body]
fn eth_payload(frame: &Vec<u8>) -> (r: Option<Vec<u8>>)
    ensures
        r is Some <==> frame@.len() >= ETHERNET_HEADER_LEN,
        r is Some ==> r->0@ == frame@.skip(14),
{
    match EthernetPacket::new(frame) {
        Some(p) => Some(p.payload().to_vec()),
        None => None,
    }
}

/// Reads the operation of an ARP packet (`ArpPacket::new`, then
/// `get_operation`): none where the packet is shorter than 28 bytes, else
/// bytes 6 and 7, most significant first.
#[verifier::external_body]
fn arp_operation(packet: &Vec<u8>) -> (r: Option<u16>)
    ensures
        r is Some <==> packet@.len() >= ARP_PACKET_LEN,
        r is Some ==> r->0 == word_at(packet@, 6),
{
    match ArpPacket::new(packet) {
        Some(p) => Some(p.get_operation().0),
        None => None,
    }
}

/// Reads the sender's hardware address of an ARP packet (`ArpPacket::new`,
/// then `get_sender_hw_addr`): none where the packet is shorter than 28
/// bytes, else bytes 8 to 13.
#[verifier::external_body]
fn arp_sender_hw_addr(packet: &Vec<u8>) -> (r: Option<[u8; 6]>)
    ensures
        r is Some <==> packet@.len() >= ARP_PACKET_LEN,
        r is Some ==> r->0@ == packet@.subrange(8, 14),
{
    match ArpPacket::new(packet) {
        Some(p) => Some(p.get_sender_hw_addr().octets()),
        None => None,
    }
}

/// Reads the sender's protocol address of an ARP packet (`ArpPacket::new`,
/// then `get_sender_proto_addr`): none where the packet is shorter than 28
/// bytes, else bytes 14 to 17.
#[verifier::external_body]
fn arp_sender_proto_addr(packet: &Vec<u8>) -> (r: Option<[u8; 4]>)
    ensures
        r is Some <==> packet@.len() >= ARP_PACKET_LEN,
        r is Some ==> r->0@ == packet@.subrange(14, 18),
{
    match ArpPacket::new(packet) {
        Some(p) => Some(p.get_sender_proto_addr().octets()),
        None => None,
    }
}

/// Why a frame could not be written.
#[derive(Clone, Copy, Debug, PartialEq, Eq)]
pub enum FrameError {
    /// The buffer is shorter than what was to be written.
    BufferTooSmall,
}

/// The 28 bytes of an ARP packet for IPv4 over Ethernet.
pub open spec fn arp_packet_bytes(
    operation: u16,
    sender_mac: Seq<u8>,
    sender_ip: Seq<u8>,
    target_mac: Seq<u8>,
    target_ip: Seq<u8>,
) -> Seq<u8> {
    be16(ARP_HARDWARE_ETHERNET) + be16(ETHERTYPE_IPV4) + seq![6u8, 4u8] + be16(operation)
        + sender_mac + sender_ip + target_mac + target_ip
}

/// The 14 bytes of an Ethernet header.
pub open spec fn ethernet_header_bytes(
    destination: Seq<u8>,
    source: Seq<u8>,
    ethertype: u16,
) -> Seq<u8> {
    destination + source + be16(ethertype)
}

/// The 42 bytes of the frame by which `source_mac`, at `source_ip`, asks
/// every station on the link who holds `target_ip`.
pub open spec fn arp_request_bytes(
    source_mac: Seq<u8>,
    source_ip: Seq<u8>,
    target_ip: Seq<u8>,
) -> Seq<u8> {
    ethernet_header_bytes(broadcast_bytes(), source_mac, ETHERTYPE_ARP) + arp_packet_bytes(
        ARP_REQUEST,
        source_mac,
        source_ip,
        zero_bytes(),
        target_ip,
    )
}

/// The destination address of a frame.
pub open spec fn frame_destination(frame: Seq<u8>) -> Seq<u8> {
    frame.subrange(0, 6)
}

/// The source address of a frame.
pub open spec fn frame_source(frame: Seq<u8>) -> Seq<u8> {
    frame.subrange(6, 12)
}

/// The type field of a frame.
pub open spec fn frame_ethertype(frame: Seq<u8>) -> int {
    word_at(frame, 12)
}

/// The ARP operation that a frame carries.
pub open spec fn frame_operation(frame: Seq<u8>) -> int {
    word_at(frame, 20)
}

/// The hardware address of the sender of the ARP packet in a frame.
pub open spec fn frame_sender_mac(frame: Seq<u8>) -> Seq<u8> {
    frame.subrange(22, 28)
}

/// The protocol address of the sender of the ARP packet in a frame.
pub open spec fn frame_sender_ip(frame: Seq<u8>) -> Seq<u8> {
    frame.subrange(28, 32)
}

/// The hardware address of the target of the ARP packet in a frame.
pub open spec fn frame_target_mac(frame: Seq<u8>) -> Seq<u8> {
    frame.subrange(32, 38)
}

/// The protocol address of the target of the ARP packet in a frame.
pub open spec fn frame_target_ip(frame: Seq<u8>) -> Seq<u8> {
    frame.subrange(38, 42)
}

/// Whether a frame is an answer to an ARP request: long enough for both
/// headers, of type ARP, with the operation "reply".
pub open spec fn is_arp_reply(frame: Seq<u8>) -> bool {
    &&& frame.len() >= FRAME_LEN
    &&& frame_ethertype(frame) == ETHERTYPE_ARP
    &&& frame_operation(frame) == ARP_REPLY
}

/// Writes an ARP packet for IPv4 over Ethernet into the first 28 bytes of
/// `buf` and leaves the rest of it alone. Fails, with `buf` untouched,
/// where `buf` is shorter than that.
pub fn write_arp_packet(
    buf: &mut Vec<u8>,
    operation: u16,
    sender_mac: &HardwareAddress,
    sender_ip: &Ipv4Address,
    target_mac: &HardwareAddress,
    target_ip: &Ipv4Address,
) -> (r: Result<(), FrameError>)
    ensures
        r is Err <==> old(buf)@.len() < ARP_PACKET_LEN,
        r is Err ==> r == Err::<(), FrameError>(FrameError::BufferTooSmall) && final(buf)@ == old(
            buf,
        )@,
        r is Ok ==> final(buf)@ == put(
            old(buf)@,
            0,
            arp_packet_bytes(operation, sender_mac@, sender_ip@, target_mac@, target_ip@),
        ),
{
    if buf.len() < ARP_PACKET_LEN {
        return Err(FrameError::BufferTooSmall);
    }
    arp_set_hardware_type(buf, ARP_HARDWARE_ETHERNET);
    arp_set_protocol_type(buf, ETHERTYPE_IPV4);
    arp_set_hw_addr_len(buf, 6);
    arp_set_proto_addr_len(buf, 4);
    arp_set_operation(buf, operation);
    arp_set_sender_hw_addr(buf, sender_mac.octets());
    arp_set_sender_proto_addr(buf, sender_ip.octets);
    arp_set_target_hw_addr(buf, target_mac.octets());
    arp_set_target_proto_addr(buf, target_ip.octets);
    assert(buf@ =~= put(
        old(buf)@,
        0,
        arp_packet_bytes(operation, sender_mac@, sender_ip@, target_mac@, target_ip@),
    ));
    Ok(())
}

/// Writes an Ethernet header and, behind it, `payload` into the front of
/// `buf`, and leaves the rest of it alone. Fails, with `buf` untouched,
/// where `buf` cannot hold both.
pub fn write_ethernet_frame(
    buf: &mut Vec<u8>,
    destination: &HardwareAddress,
    source: &HardwareAddress,
    ethertype: u16,
    payload: &Vec<u8>,
) -> (r: Result<(), FrameError>)
    ensures
        r is Err <==> old(buf)@.len() < ETHERNET_HEADER_LEN + payload@.len(),
        r is Err ==> r == Err::<(), FrameError>(FrameError::BufferTooSmall) && final(buf)@ == old(
            buf,
        )@,
        r is Ok ==> final(buf)@ == put(
            old(buf)@,
            0,
            ethernet_header_bytes(destination@, source@, ethertype) + payload@,
        ),
{
    if buf.len() < ETHERNET_HEADER_LEN || buf.len() - ETHERNET_HEADER_LEN < payload.len() {
        return Err(FrameError::BufferTooSmall);
    }
    eth_set_destination(buf, destination.octets());
    eth_set_source(buf, source.octets());
    eth_set_ethertype(buf, ethertype);
    eth_set_payload(buf, payload);
    assert(buf@ =~= put(
        old(buf)@,
        0,
        ethernet_header_bytes(destination@, source@, ethertype) + payload@,
    ));
    Ok(())
}

/// Writes an ARP request into the first 42 bytes of `buf` and leaves the
/// rest of it alone. Fails, with `buf` untouched, where `buf` is shorter
/// than that.
pub fn write_arp_request(
    buf: &mut Vec<u8>,
    source_mac: &HardwareAddress,
    source_ip: &Ipv4Address,
    target_ip: &Ipv4Address,
) -> (r: Result<(), FrameError>)
    ensures
        r is Err <==> old(buf)@.len() < FRAME_LEN,
        r is Err ==> r == Err::<(), FrameError>(FrameError::BufferTooSmall) && final(buf)@ == old(
            buf,
        )@,
        r is Ok ==> final(buf)@ == put(
            old(buf)@,
            0,
            arp_request_bytes(source_mac@, source_ip@, target_ip@),
        ),
{
    if buf.len() < FRAME_LEN {
        return Err(FrameError::BufferTooSmall);
    }
    let mut packet: Vec<u8> = vec![0u8; 28];
    let unknown = HardwareAddress::zero();
    if let Err(e) = write_arp_packet(
        &mut packet,
        ARP_REQUEST,
        source_mac,
        source_ip,
        &unknown,
        target_ip,
    ) {
        return Err(e);
    }
    assert(packet@ =~= arp_packet_bytes(
        ARP_REQUEST,
        source_mac@,
        source_ip@,
        zero_bytes(),
        target_ip@,
    ));
    let everyone = HardwareAddress::broadcast();
    write_ethernet_frame(buf, &everyone, source_mac, ETHERTYPE_ARP, &packet)
}

/// The frame by which `source_mac`, at `source_ip`, asks every station on
/// the link who holds `target_ip`.
pub fn build_arp_request(
    source_mac: &HardwareAddress,
    source_ip: &Ipv4Address,
    target_ip: &Ipv4Address,
) -> (frame: Vec<u8>)
    ensures
        frame@ == arp_request_bytes(source_mac@, source_ip@, target_ip@),
{
    let mut frame: Vec<u8> = vec![0u8; 42];
    let written = write_arp_request(&mut frame, source_mac, source_ip, target_ip);
    assert(written is Ok);
    assert(frame@ =~= arp_request_bytes(source_mac@, source_ip@, target_ip@));
    frame
}

/// What an ARP reply tells: who answered, and from which hardware address.
#[derive(Clone, Copy, Debug, PartialEq, Eq)]
pub struct ArpReply {
    pub sender_ip: Ipv4Address,
    pub sender_mac: HardwareAddress,
}

/// Reads an inbound frame. Only an Ethernet frame that carries an ARP reply
/// yields a sender; any other frame yields nothing.
pub fn decode_arp_reply(frame: &Vec<u8>) -> (r: Option<ArpReply>)
    ensures
        r is Some <==> is_arp_reply(frame@),
        r is Some ==> r->0.sender_ip@ == frame_sender_ip(frame@) && r->0.sender_mac@
            == frame_sender_mac(frame@),
{
    let ethertype = match eth_ethertype(frame) {
        Some(t) => t,
        None => { return None; },
    };
    if ethertype != ETHERTYPE_ARP {
        return None;
    }
    let packet = match eth_payload(frame) {
        Some(p) => p,
        None => { return None; },
    };
    let operation = match arp_operation(&packet) {
        Some(op) => op,
        None => { return None; },
    };
    if operation != ARP_REPLY {
        return None;
    }
    let ip = match arp_sender_proto_addr(&packet) {
        Some(ip) => ip,
        None => { return None; },
    };
    let mac = match arp_sender_hw_addr(&packet) {
        Some(mac) => mac,
        None => { return None; },
    };
    assert(ip@ =~= frame_sender_ip(frame@));
    assert(mac@ =~= frame_sender_mac(frame@));
    Some(
        ArpReply {
            sender_ip: Ipv4Address { octets: ip },
            sender_mac: HardwareAddress { bytes: mac },
        },
    )
}

/// Reading back the fields of a request frame gives what it was built from:
/// the frame goes to everyone, is of type ARP, carries the operation
/// "request", names the source as sender, and asks for the target with
/// the target's hardware address left at zero.
pub proof fn lemma_request_fields(source_mac: Seq<u8>, source_ip: Seq<u8>, target_ip: Seq<u8>)
    requires
        source_mac.len() == 6,
        source_ip.len() == 4,
        target_ip.len() == 4,
    ensures
        ({
            let frame = arp_request_bytes(source_mac, source_ip, target_ip);
            &&& frame.len() == FRAME_LEN
            &&& frame_destination(frame) == broadcast_bytes()
            &&& frame_source(frame) == source_mac
            &&& frame_ethertype(frame) == ETHERTYPE_ARP
            &&& word_at(frame, 14) == ARP_HARDWARE_ETHERNET
            &&& word_at(frame, 16) == ETHERTYPE_IPV4
            &&& frame[18] == 6
            &&& frame[19] == 4
            &&& frame_operation(frame) == ARP_REQUEST
            &&& frame_sender_mac(frame) == source_mac
            &&& frame_sender_ip(frame) == source_ip
            &&& frame_target_mac(frame) == zero_bytes()
            &&& frame_target_ip(frame) == target_ip
            &&& !is_arp_reply(frame)
        }),
{
    let frame = arp_request_bytes(source_mac, source_ip, target_ip);
    assert(frame_destination(frame) =~= broadcast_bytes());
    assert(frame_source(frame) =~= source_mac);
    assert(frame_sender_mac(frame) =~= source_mac);
    assert(frame_sender_ip(frame) =~= source_ip);
    assert(frame_target_mac(frame) =~= zero_bytes());
    assert(frame_target_ip(frame) =~= target_ip);
}

} // verus!
