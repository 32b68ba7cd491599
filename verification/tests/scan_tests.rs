use arp_scan::addr::{HardwareAddress, Ipv4Address};
use arp_scan::cidr::{parse_cidr, CidrError};
use arp_scan::frame::build_arp_request;
use arp_scan::iface::{InterfaceAddress, InterfaceInfo};
use arp_scan::scan::{
    plan_scan, ChannelFailure, ScanAction, ScanEngine, ScanError, ScanEvent, ScanOutcome,
    ScanPhase, ScanPlan, ScanRecord, ScanResult, DEFAULT_WINDOW_MS,
};
use arp_scan::vendor::VendorRegistry;

const SOURCE_MAC: [u8; 6] = [0x11, 0x22, 0x33, 0x44, 0x55, 0x66];

fn plan(cidr: &str) -> ScanPlan {
    ScanPlan {
        subnet: parse_cidr(cidr).unwrap(),
        interface: 0,
        source_mac: HardwareAddress::new(SOURCE_MAC),
        source_ip: Ipv4Address::new(10, 0, 0, 1),
    }
}

fn reply(sender_ip: [u8; 4], sender_mac: [u8; 6]) -> Vec<u8> {
    let mut frame = Vec::new();
    frame.extend_from_slice(&SOURCE_MAC);
    frame.extend_from_slice(&sender_mac);
    frame.extend_from_slice(&[0x08, 0x06, 0x00, 0x01, 0x08, 0x00, 0x06, 0x04, 0x00, 0x02]);
    frame.extend_from_slice(&sender_mac);
    frame.extend_from_slice(&sender_ip);
    frame.extend_from_slice(&SOURCE_MAC);
    frame.extend_from_slice(&[10, 0, 0, 1]);
    frame
}

fn received(frame: Vec<u8>, elapsed_ms: u64) -> ScanEvent {
    ScanEvent::Received { frame: Some(frame), elapsed_ms }
}

fn listening(cidr: &str, window_ms: u64) -> ScanEngine {
    let mut engine = ScanEngine::new(plan(cidr), window_ms);
    let mut action = engine.step(ScanEvent::ChannelOpened);
    while let ScanAction::Transmit { .. } = action {
        action = engine.step(ScanEvent::Sent { delivered: true });
    }
    assert_eq!(action, ScanAction::Receive);
    assert_eq!(engine.phase(), ScanPhase::Listening);
    engine
}

fn usable_interface() -> InterfaceInfo {
    InterfaceInfo {
        up: true,
        loopback: false,
        addresses: vec![InterfaceAddress::V6, InterfaceAddress::V4(Ipv4Address::new(192, 168, 1, 10))],
        mac: Some(HardwareAddress::new(SOURCE_MAC)),
    }
}

fn loopback_interface() -> InterfaceInfo {
    InterfaceInfo {
        up: true,
        loopback: true,
        addresses: vec![InterfaceAddress::V4(Ipv4Address::new(127, 0, 0, 1))],
        mac: None,
    }
}

#[test]
fn new_engine_is_idle_and_asks_for_a_channel() {
    let engine = ScanEngine::new(plan("10.0.0.0/30"), DEFAULT_WINDOW_MS);
    assert_eq!(engine.phase(), ScanPhase::Idle);
    assert_eq!(engine.pending(), ScanAction::OpenChannel);
    assert_eq!(engine.sent(), 0);
    assert_eq!(engine.unsent(), 0);
    assert_eq!(engine.results().len(), 0);
}

#[test]
fn default_window_is_five_seconds() {
    assert_eq!(DEFAULT_WINDOW_MS, 5000);
}

#[test]
fn requests_go_out_in_ascending_order() {
    let mut engine = ScanEngine::new(plan("10.0.0.0/29"), 5000);
    let mac = HardwareAddress::new(SOURCE_MAC);
    let source = Ipv4Address::new(10, 0, 0, 1);
    let mut action = engine.step(ScanEvent::ChannelOpened);
    for host in 1u8..=6 {
        assert_eq!(engine.phase(), ScanPhase::Transmitting);
        let target = Ipv4Address::new(10, 0, 0, host);
        assert_eq!(
            action,
            ScanAction::Transmit { target, frame: build_arp_request(&mac, &source, &target) }
        );
        assert_eq!(engine.pending(), action);
        action = engine.step(ScanEvent::Sent { delivered: true });
    }
    assert_eq!(action, ScanAction::Receive);
    assert_eq!(engine.phase(), ScanPhase::Listening);
    assert_eq!(engine.sent(), 6);
    assert_eq!(engine.unsent(), 0);
}

#[test]
fn failed_sends_are_counted_and_do_not_stop_the_sweep() {
    let mut engine = ScanEngine::new(plan("10.0.0.0/29"), 5000);
    engine.step(ScanEvent::ChannelOpened);
    engine.step(ScanEvent::Sent { delivered: false });
    engine.step(ScanEvent::Sent { delivered: true });
    let action = engine.step(ScanEvent::Sent { delivered: false });
    match action {
        ScanAction::Transmit { target, .. } => assert_eq!(target, Ipv4Address::new(10, 0, 0, 4)),
        other => panic!("unexpected action {:?}", other),
    }
    assert_eq!(engine.sent(), 3);
    assert_eq!(engine.unsent(), 2);
    assert_eq!(engine.phase(), ScanPhase::Transmitting);
}

#[test]
fn subnet_without_hosts_goes_straight_to_listening() {
    let mut engine = ScanEngine::new(plan("10.0.0.0/32"), 5000);
    assert_eq!(engine.step(ScanEvent::ChannelOpened), ScanAction::Receive);
    assert_eq!(engine.phase(), ScanPhase::Listening);
    assert_eq!(engine.sent(), 0);
}

#[test]
fn channel_failure_ends_the_scan_before_anything_is_sent() {
    let mut engine = ScanEngine::new(plan("10.0.0.0/24"), 5000);
    assert_eq!(
        engine.step(ScanEvent::ChannelFailed(ChannelFailure::Refused)),
        ScanAction::Finish(ScanOutcome::Failure(ScanError::ChannelRefused))
    );
    assert_eq!(engine.phase(), ScanPhase::Done);
    assert_eq!(engine.sent(), 0);
    let mut engine = ScanEngine::new(plan("10.0.0.0/24"), 5000);
    assert_eq!(
        engine.step(ScanEvent::ChannelFailed(ChannelFailure::Unsupported)),
        ScanAction::Finish(ScanOutcome::Failure(ScanError::ChannelUnsupported))
    );
}

#[test]
fn reply_is_recorded() {
    let mut engine = listening("10.0.0.0/30", 5000);
    let action = engine.step(received(reply([10, 0, 0, 2], [0xaa, 0xbb, 0xcc, 1, 2, 3]), 100));
    assert_eq!(action, ScanAction::Receive);
    assert_eq!(engine.results().len(), 1);
    assert_eq!(
        engine.results().get(Ipv4Address::new(10, 0, 0, 2)),
        Some(HardwareAddress::new([0xaa, 0xbb, 0xcc, 1, 2, 3]))
    );
    assert_eq!(engine.results().get(Ipv4Address::new(10, 0, 0, 3)), None);
}

#[test]
fn non_arp_frame_is_not_recorded() {
    let mut engine = listening("10.0.0.0/30", 5000);
    let mut frame = reply([10, 0, 0, 2], [0xaa, 0xbb, 0xcc, 1, 2, 3]);
    frame[12] = 0x08;
    frame[13] = 0x00;
    assert_eq!(engine.step(received(frame, 100)), ScanAction::Receive);
    assert_eq!(engine.results().len(), 0);
}

#[test]
fn arp_request_is_not_recorded() {
    let mut engine = listening("10.0.0.0/30", 5000);
    let mut frame = reply([10, 0, 0, 2], [0xaa, 0xbb, 0xcc, 1, 2, 3]);
    frame[21] = 0x01;
    assert_eq!(engine.step(received(frame, 100)), ScanAction::Receive);
    assert_eq!(engine.results().len(), 0);
    let request = build_arp_request(
        &HardwareAddress::new(SOURCE_MAC),
        &Ipv4Address::new(10, 0, 0, 1),
        &Ipv4Address::new(10, 0, 0, 5),
    );
    assert_eq!(engine.step(received(request, 200)), ScanAction::Receive);
    assert_eq!(engine.results().len(), 0);
}

#[test]
fn truncated_and_empty_frames_are_not_recorded() {
    let mut engine = listening("10.0.0.0/30", 5000);
    let mut frame = reply([10, 0, 0, 2], [0xaa, 0xbb, 0xcc, 1, 2, 3]);
    frame.truncate(41);
    engine.step(received(frame, 100));
    engine.step(received(Vec::new(), 150));
    assert_eq!(engine.results().len(), 0);
}

#[test]
fn second_reply_from_the_same_address_overwrites_the_first() {
    let mut engine = listening("10.0.0.0/24", 5000);
    engine.step(received(reply([10, 0, 0, 9], [1, 1, 1, 1, 1, 1]), 10));
    engine.step(received(reply([10, 0, 0, 9], [2, 2, 2, 2, 2, 2]), 20));
    assert_eq!(engine.results().len(), 1);
    assert_eq!(
        engine.results().get(Ipv4Address::new(10, 0, 0, 9)),
        Some(HardwareAddress::new([2, 2, 2, 2, 2, 2]))
    );
}

#[test]
fn receive_error_changes_nothing_and_listening_goes_on() {
    let mut engine = listening("10.0.0.0/30", 5000);
    engine.step(received(reply([10, 0, 0, 2], [1, 2, 3, 4, 5, 6]), 10));
    let action = engine.step(ScanEvent::Received { frame: None, elapsed_ms: 4999 });
    assert_eq!(action, ScanAction::Receive);
    assert_eq!(engine.phase(), ScanPhase::Listening);
    assert_eq!(engine.results().len(), 1);
}

#[test]
fn window_ends_when_the_elapsed_time_reaches_it() {
    let mut engine = listening("10.0.0.0/30", 5000);
    assert_eq!(engine.step(ScanEvent::Received { frame: None, elapsed_ms: 4999 }), ScanAction::Receive);
    assert_eq!(engine.step(ScanEvent::Received { frame: None, elapsed_ms: 5000 }), ScanAction::Report);
    assert_eq!(engine.phase(), ScanPhase::Reporting);
}

#[test]
fn frame_that_arrives_with_the_deadline_is_still_recorded() {
    let mut engine = listening("10.0.0.0/30", 5000);
    let action = engine.step(received(reply([10, 0, 0, 2], [1, 2, 3, 4, 5, 6]), 7500));
    assert_eq!(action, ScanAction::Report);
    assert_eq!(engine.results().len(), 1);
}

#[test]
fn window_of_zero_still_polls_once() {
    let mut engine = listening("10.0.0.0/30", 0);
    assert_eq!(engine.pending(), ScanAction::Receive);
    assert_eq!(engine.step(ScanEvent::Received { frame: None, elapsed_ms: 0 }), ScanAction::Report);
}

#[test]
fn scan_without_replies_succeeds_with_an_empty_result() {
    let mut engine = listening("192.168.1.0/24", 5000);
    assert_eq!(engine.sent(), 254);
    assert_eq!(engine.step(ScanEvent::Received { frame: None, elapsed_ms: 2500 }), ScanAction::Receive);
    assert_eq!(engine.step(ScanEvent::Received { frame: None, elapsed_ms: 5001 }), ScanAction::Report);
    assert_eq!(engine.results().len(), 0);
    assert_eq!(engine.report(&VendorRegistry::empty()), Vec::<ScanRecord>::new());
    assert_eq!(engine.step(ScanEvent::Reported), ScanAction::Finish(ScanOutcome::Success));
    assert_eq!(engine.phase(), ScanPhase::Done);
}

#[test]
fn done_engine_stays_done() {
    let mut engine = listening("10.0.0.0/30", 5000);
    engine.step(ScanEvent::Received { frame: None, elapsed_ms: 5000 });
    engine.step(ScanEvent::Reported);
    for event in [
        ScanEvent::ChannelOpened,
        ScanEvent::ChannelFailed(ChannelFailure::Refused),
        ScanEvent::Sent { delivered: false },
        received(reply([10, 0, 0, 2], [1, 2, 3, 4, 5, 6]), 1),
        ScanEvent::Reported,
    ] {
        assert_eq!(engine.step(event), ScanAction::Finish(ScanOutcome::Success));
        assert_eq!(engine.phase(), ScanPhase::Done);
        assert_eq!(engine.results().len(), 0);
    }
}

#[test]
fn events_out_of_place_change_nothing() {
    let mut engine = ScanEngine::new(plan("10.0.0.0/30"), 5000);
    assert_eq!(engine.step(ScanEvent::Sent { delivered: false }), ScanAction::OpenChannel);
    assert_eq!(engine.step(received(reply([10, 0, 0, 2], [1; 6]), 9999)), ScanAction::OpenChannel);
    assert_eq!(engine.step(ScanEvent::Reported), ScanAction::OpenChannel);
    assert_eq!(engine.phase(), ScanPhase::Idle);
    assert_eq!(engine.sent(), 0);
    assert_eq!(engine.unsent(), 0);
    assert_eq!(engine.results().len(), 0);
    let first = engine.step(ScanEvent::ChannelOpened);
    assert_eq!(engine.step(received(reply([10, 0, 0, 2], [1; 6]), 9999)), first);
    assert_eq!(engine.step(ScanEvent::ChannelOpened), first);
    assert_eq!(engine.phase(), ScanPhase::Transmitting);
    assert_eq!(engine.results().len(), 0);
    let mut engine = listening("10.0.0.0/30", 5000);
    assert_eq!(engine.step(ScanEvent::Sent { delivered: false }), ScanAction::Receive);
    assert_eq!(engine.step(ScanEvent::Reported), ScanAction::Receive);
    assert_eq!(engine.sent(), 2);
    assert_eq!(engine.unsent(), 0);
}

#[test]
fn report_names_the_manufacturer_of_each_host() {
    let file: Vec<String> =
        vec!["AA-BB-CC (hex) ACME".to_string(), "AABBCC (base 16) ACME Corp International".to_string()];
    let registry = VendorRegistry::load(Some(&file));
    let mut engine = listening("10.0.0.0/24", 5000);
    engine.step(received(reply([10, 0, 0, 5], [0xaa, 0xbb, 0xcc, 0x11, 0x22, 0x33]), 10));
    engine.step(received(reply([10, 0, 0, 7], [0x00, 0x01, 0x02, 0x03, 0x04, 0x05]), 20));
    engine.step(received(reply([10, 0, 0, 5], [0xaa, 0xbb, 0xcc, 0x44, 0x55, 0x66]), 6000));
    let mut report = engine.report(&registry);
    report.sort_by_key(|r| r.ip.octets);
    assert_eq!(
        report,
        vec![
            ScanRecord {
                ip: Ipv4Address::new(10, 0, 0, 5),
                mac: HardwareAddress::new([0xaa, 0xbb, 0xcc, 0x44, 0x55, 0x66]),
                manufacturer: "ACME Corp International".to_string(),
            },
            ScanRecord {
                ip: Ipv4Address::new(10, 0, 0, 7),
                mac: HardwareAddress::new([0x00, 0x01, 0x02, 0x03, 0x04, 0x05]),
                manufacturer: "Unknown".to_string(),
            },
        ]
    );
}

#[test]
fn result_entries_list_each_host_once() {
    let mut result = ScanResult::new();
    assert_eq!(result.len(), 0);
    assert_eq!(result.entries(), Vec::new());
    for host in 0u8..50 {
        result.record(Ipv4Address::new(10, 0, 0, host), HardwareAddress::new([host; 6]));
    }
    for host in 0u8..10 {
        result.record(Ipv4Address::new(10, 0, 0, host), HardwareAddress::new([0xee; 6]));
    }
    assert_eq!(result.len(), 50);
    let mut entries = result.entries();
    entries.sort_by_key(|e| e.0.octets);
    assert_eq!(entries.len(), 50);
    for (i, (ip, mac)) in entries.iter().enumerate() {
        assert_eq!(*ip, Ipv4Address::new(10, 0, 0, i as u8));
        let expected = if i < 10 { [0xee; 6] } else { [i as u8; 6] };
        assert_eq!(*mac, HardwareAddress::new(expected));
    }
}

#[test]
fn plan_needs_the_registry_first() {
    let interfaces = vec![usable_interface()];
    assert_eq!(plan_scan(false, "10.0.0.0/24", &interfaces), Err(ScanError::RegistryMissing));
    assert_eq!(plan_scan(false, "nonsense", &Vec::new()), Err(ScanError::RegistryMissing));
}

#[test]
fn plan_reports_each_cidr_error() {
    let interfaces = vec![usable_interface()];
    assert_eq!(
        plan_scan(true, "10.0.0.0", &interfaces),
        Err(ScanError::Cidr(CidrError::BadFormat))
    );
    assert_eq!(
        plan_scan(true, "10.0.0.256/24", &interfaces),
        Err(ScanError::Cidr(CidrError::BadAddress))
    );
    assert_eq!(
        plan_scan(true, "10.0.0.0/33", &interfaces),
        Err(ScanError::Cidr(CidrError::BadPrefix))
    );
    assert_eq!(plan_scan(true, "bad", &Vec::new()), Err(ScanError::Cidr(CidrError::BadFormat)));
}

#[test]
fn plan_needs_a_usable_interface() {
    assert_eq!(plan_scan(true, "10.0.0.0/24", &Vec::new()), Err(ScanError::NoInterface));
    assert_eq!(
        plan_scan(true, "10.0.0.0/24", &vec![loopback_interface()]),
        Err(ScanError::NoInterface)
    );
}

#[test]
fn plan_takes_the_identity_of_the_first_usable_interface() {
    let interfaces = vec![loopback_interface(), usable_interface()];
    let plan = plan_scan(true, "192.168.1.0/24", &interfaces).unwrap();
    assert_eq!(plan.interface, 1);
    assert_eq!(plan.source_mac, HardwareAddress::new(SOURCE_MAC));
    assert_eq!(plan.source_ip, Ipv4Address::new(192, 168, 1, 10));
    assert_eq!(plan.subnet, parse_cidr("192.168.1.0/24").unwrap());
}
