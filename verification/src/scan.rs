//! The scan: one request to every host of a subnet, then a window of
//! listening, then a report.
//!
//! The engine here decides; its caller acts. The caller opens the channel,
//! sends the frames, receives, reads the clock, and tells the engine what
//! happened. The engine says what to do next.

use vstd::prelude::*;
use std::collections::HashMap;
use vstd::std_specs::iter::IteratorSpec;
use crate::addr::{HardwareAddress, Ipv4Address, be_value, ip_to_u32, u32_to_ip};
use crate::cidr::{
    CidrError, Subnet, cidr_of, host_total, host_value, lemma_block_bounds, parse_cidr,
};
use crate::frame::{
    arp_request_bytes, build_arp_request, decode_arp_reply, frame_sender_ip, frame_sender_mac,
    is_arp_reply,
};
use crate::iface::{InterfaceInfo, get_default_interface, usable};
use crate::vendor::{VendorRegistry, get_manufacturer, manufacturer_of};

verus! {

/// The hardware addresses of the hosts that answered, by protocol address.
/// A host that answers again replaces its earlier entry.
pub struct ScanResult {
    table: HashMap<u32, HardwareAddress>,
}

impl View for ScanResult {
    type V = Map<u32, Seq<u8>>;

    closed spec fn view(&self) -> Map<u32, Seq<u8>> {
        Map::new(|k: u32| self.table@.contains_key(k), |k: u32| self.table@[k]@)
    }
}

impl ScanResult {
    /// The result of a scan to which nobody has answered yet.
    pub fn new() -> (r: ScanResult)
        ensures
            r@ == Map::<u32, Seq<u8>>::empty(),
    {
        let r = ScanResult { table: HashMap::new() };
        assert(r@ =~= Map::<u32, Seq<u8>>::empty());
        r
    }

    /// Notes that `ip` answered from `mac`.
    pub fn record(&mut self, ip: Ipv4Address, mac: HardwareAddress)
        ensures
            final(self)@ == old(self)@.insert(ip.value() as u32, mac@),
    {
        let key = ip_to_u32(ip);
        self.table.insert(key, mac);
        assert(self@ =~= old(self)@.insert(key, mac@));
    }

    /// The number of hosts that answered.
    pub fn len(&self) -> (r: usize)
        ensures
            r == self@.dom().len(),
    {
        assert(self@.dom() =~= self.table@.dom());
        self.table.len()
    }

    /// The hardware address from which `ip` answered last, if it answered.
    pub fn get(&self, ip: Ipv4Address) -> (r: Option<HardwareAddress>)
        ensures
            r is Some <==> self@.contains_key(ip.value() as u32),
            r is Some ==> r->0@ == self@[ip.value() as u32],
    {
        let key = ip_to_u32(ip);
        match self.table.get(&key) {
            Some(mac) => Some(*mac),
            None => None,
        }
    }

    /// The hosts that answered, each once, in no particular order.
    pub fn entries(&self) -> (r: Vec<(Ipv4Address, HardwareAddress)>)
        ensures
            r@.len() == self@.dom().len(),
            forall|i: int|
                0 <= i < r@.len() ==> self@.contains_key((#[trigger] r@[i]).0.value() as u32)
                    && self@[r@[i].0.value() as u32] == r@[i].1@,
            forall|k: u32|
                self@.contains_key(k) ==> exists|i: int|
                    0 <= i < r@.len() && (#[trigger] r@[i]).0.value() == k,
            forall|i: int, j: int|
                0 <= i < j < r@.len() ==> (#[trigger] r@[i]).0.value() != (
                #[trigger] r@[j]).0.value(),
    {
        let mut out: Vec<(Ipv4Address, HardwareAddress)> = Vec::new();
        let ghost items = vstd::std_specs::hash::spec_hash_map_iter(&self.table).remaining();
        assert(self@.dom() =~= self.table@.dom());
        for kv in it: self.table.iter()
            invariant
                it.seq() == items,
                out@.len() == it.index(),
                forall|i: int|
                    0 <= i < out@.len() ==> (#[trigger] out@[i]).0.value() == *items[i].0
                        && out@[i].1 == *items[i].1,
        {
            let (k, v) = kv;
            out.push((u32_to_ip(*k), *v));
        }
        proof {
            assert(items.no_duplicates());
            assert forall|k: u32| self@.contains_key(k) implies exists|i: int|
                0 <= i < out@.len() && (#[trigger] out@[i]).0.value() == k by {
                assert(items.contains((&k, &self.table@[k])));
                let i = choose|i: int| 0 <= i < items.len() && items[i] == (&k, &self.table@[k]);
                assert(out@[i].0.value() == k);
            }
            assert forall|i: int, j: int| 0 <= i < j < out@.len() implies (
            #[trigger] out@[i]).0.value() != (#[trigger] out@[j]).0.value() by {
                if *items[i].0 == *items[j].0 {
                    assert(self.table@.contains_key(*items[i].0));
                    assert(self.table@.contains_key(*items[j].0));
                    assert(*items[i].1 == *items[j].1);
                    assert(items[i] == items[j]);
                }
            }
        }
        out
    }
}

/// One line of the report: a host that answered, the hardware address it
/// answered from, and who made that hardware.
#[derive(Clone, Debug, PartialEq, Eq)]
pub struct ScanRecord {
    pub ip: Ipv4Address,
    pub mac: HardwareAddress,
    pub manufacturer: String,
}

/// Whether `records` reports what `replies` holds: every host that
/// answered, once, with the address it answered from last and the
/// manufacturer that `names` gives for that address.
pub open spec fn reports(
    records: Seq<ScanRecord>,
    replies: Map<u32, Seq<u8>>,
    names: Map<Seq<char>, Seq<char>>,
) -> bool {
    &&& records.len() == replies.dom().len()
    &&& forall|i: int|
        0 <= i < records.len() ==> {
            let r = #[trigger] records[i];
            &&& replies.contains_key(r.ip.value() as u32)
            &&& replies[r.ip.value() as u32] == r.mac@
            &&& r.manufacturer@ == manufacturer_of(names, r.mac@)
        }
    &&& forall|k: u32|
        replies.contains_key(k) ==> exists|i: int|
            0 <= i < records.len() && (#[trigger] records[i]).ip.value() == k
    &&& forall|i: int, j: int|
        0 <= i < j < records.len() ==> (#[trigger] records[i]).ip.value() != (
        #[trigger] records[j]).ip.value()
}

impl ScanResult {
    /// The report: one record for each host that answered, in no
    /// particular order.
    pub fn report(&self, registry: &VendorRegistry) -> (r: Vec<ScanRecord>)
        ensures
            reports(r@, self@, registry@),
    {
        let entries = self.entries();
        let mut out: Vec<ScanRecord> = Vec::new();
        let mut i: usize = 0;
        while i < entries.len()
            invariant
                i <= entries@.len(),
                out@.len() == i,
                forall|j: int|
                    0 <= j < i ==> (#[trigger] out@[j]).ip == entries@[j].0 && out@[j].mac
                        == entries@[j].1 && out@[j].manufacturer@ == manufacturer_of(
                        registry@,
                        entries@[j].1@,
                    ),
            decreases entries@.len() - i,
        {
            let (ip, mac) = entries[i];
            let manufacturer = get_manufacturer(registry, &mac);
            out.push(ScanRecord { ip, mac, manufacturer });
            i += 1;
        }
        proof {
            assert forall|k: u32| self@.contains_key(k) implies exists|i: int|
                0 <= i < out@.len() && (#[trigger] out@[i]).ip.value() == k by {
                let i = choose|i: int|
                    0 <= i < entries@.len() && (#[trigger] entries@[i]).0.value() == k;
                assert(out@[i].ip.value() == k);
            }
            assert forall|i: int, j: int| 0 <= i < j < out@.len() implies (
            #[trigger] out@[i]).ip.value() != (#[trigger] out@[j]).ip.value() by {
                assert(entries@[i].0.value() != entries@[j].0.value());
            }
            assert forall|i: int| 0 <= i < out@.len() implies {
                let r = #[trigger] out@[i];
                &&& self@.contains_key(r.ip.value() as u32)
                &&& self@[r.ip.value() as u32] == r.mac@
                &&& r.manufacturer@ == manufacturer_of(registry@, r.mac@)
            } by {
                assert(self@.contains_key(entries@[i].0.value() as u32));
            }
        }
        out
    }
}

/// Why a scan did not take place.
#[derive(Clone, Copy, Debug, PartialEq, Eq)]
pub enum ScanError {
    /// The vendor registry file is not there.
    RegistryMissing,
    /// The text that names the subnet is no subnet.
    Cidr(CidrError),
    /// No interface is fit to scan on.
    NoInterface,
    /// The system refused a channel on the interface.
    ChannelRefused,
    /// The system gave a channel of a kind that carries no Ethernet frames.
    ChannelUnsupported,
}

/// What a scan needs to know before it starts.
#[derive(Clone, Copy, Debug, PartialEq, Eq)]
pub struct ScanPlan {
    /// The subnet to sweep.
    pub subnet: Subnet,
    /// The position of the chosen interface among those offered.
    pub interface: usize,
    /// The hardware address that requests name as their source.
    pub source_mac: HardwareAddress,
    /// The protocol address that requests name as their source.
    pub source_ip: Ipv4Address,
}

/// Whether some interface is fit to scan on.
pub open spec fn some_usable(interfaces: Seq<InterfaceInfo>) -> bool {
    exists|j: int| 0 <= j < interfaces.len() && usable(#[trigger] interfaces[j])
}

/// Whether `plan` is the plan for a scan of the subnet that `text` names,
/// on the first usable interface of `interfaces`.
pub open spec fn is_plan(plan: ScanPlan, text: Seq<char>, interfaces: Seq<InterfaceInfo>) -> bool {
    &&& cidr_of(text) is Ok
    &&& plan.subnet.wf()
    &&& plan.subnet@.base == be_value(cidr_of(text)->Ok_0.0)
    &&& plan.subnet@.prefix == cidr_of(text)->Ok_0.1
    &&& plan.interface < interfaces.len()
    &&& usable(interfaces[plan.interface as int])
    &&& forall|j: int| 0 <= j < plan.interface ==> !usable(#[trigger] interfaces[j])
    &&& crate::iface::is_source_mac(interfaces[plan.interface as int].mac, plan.source_mac)
    &&& crate::iface::is_source_ip(interfaces[plan.interface as int].addresses@, plan.source_ip)
}

/// Checks what must hold before anything is sent, in this order: the
/// vendor registry is there, the text names a subnet, an interface is fit
/// to scan on. The first that fails is the error.
pub fn plan_scan(
    registry_present: bool,
    cidr: &str,
    interfaces: &Vec<InterfaceInfo>,
) -> (r: Result<ScanPlan, ScanError>)
    ensures
        r is Ok <==> registry_present && cidr_of(cidr@) is Ok && some_usable(interfaces@),
        match r {
            Ok(plan) => registry_present && is_plan(plan, cidr@, interfaces@),
            Err(ScanError::RegistryMissing) => !registry_present,
            Err(ScanError::Cidr(e)) => registry_present && cidr_of(cidr@) == Err::<
                (Seq<u8>, u8),
                CidrError,
            >(e),
            Err(ScanError::NoInterface) => registry_present && cidr_of(cidr@) is Ok
                && !some_usable(interfaces@),
            Err(_) => false,
        },
{
    if !registry_present {
        return Err(ScanError::RegistryMissing);
    }
    let subnet = match parse_cidr(cidr) {
        Ok(subnet) => subnet,
        Err(e) => { return Err(ScanError::Cidr(e)); },
    };
    let at = match get_default_interface(interfaces) {
        Some(at) => at,
        None => { return Err(ScanError::NoInterface); },
    };
    let source_mac = interfaces[at].source_mac();
    let source_ip = interfaces[at].source_ip();
    Ok(ScanPlan { subnet, interface: at, source_mac, source_ip })
}

/// Where a scan stands.
#[derive(Clone, Copy, Debug, PartialEq, Eq)]
pub enum ScanPhase {
    /// Nothing was sent yet; the channel is still to be opened.
    Idle,
    /// Requests are going out, one host after the other.
    Transmitting,
    /// All requests went out; answers are collected until the window ends.
    Listening,
    /// The window ended; the report is due.
    Reporting,
    /// The scan is over.
    Done,
}

/// How a scan ended.
#[derive(Clone, Copy, Debug, PartialEq, Eq)]
pub enum ScanOutcome {
    /// The sweep ran to its end. Finding no host is a success too.
    Success,
    /// The sweep never started.
    Failure(ScanError),
}

/// Why no channel could be had.
#[derive(Clone, Copy, Debug, PartialEq, Eq)]
pub enum ChannelFailure {
    /// Opening the channel failed.
    Refused,
    /// The channel is of a kind that carries no Ethernet frames.
    Unsupported,
}

/// What the caller tells the engine.
#[derive(Clone, Debug, PartialEq, Eq)]
pub enum ScanEvent {
    /// A channel on the chosen interface is open.
    ChannelOpened,
    /// No channel on the chosen interface could be had.
    ChannelFailed(ChannelFailure),
    /// The frame last asked for was handed to the link, or the link
    /// refused it.
    Sent { delivered: bool },
    /// One attempt to receive ended, with a frame or with an error, when
    /// `elapsed_ms` milliseconds of listening had passed.
    Received { frame: Option<Vec<u8>>, elapsed_ms: u64 },
    /// The report was handed over.
    Reported,
}

/// What the engine asks of the caller.
#[derive(Clone, Debug, PartialEq, Eq)]
pub enum ScanAction {
    /// Open a channel on the chosen interface and tell how it went.
    OpenChannel,
    /// Send this request, which asks for `target`, and tell how it went.
    Transmit { target: Ipv4Address, frame: Vec<u8> },
    /// Try once to receive a frame and tell what came, and when. The clock
    /// of the listening window starts with the first such attempt.
    Receive,
    /// Take the report and say so.
    Report,
    /// Stop: the scan is over.
    Finish(ScanOutcome),
}

/// All that a scan has decided and learnt so far.
pub struct EngineState {
    pub phase: ScanPhase,
    /// The number that the base address of the subnet spells.
    pub base: int,
    /// The prefix length of the subnet.
    pub prefix: nat,
    pub source_mac: Seq<u8>,
    pub source_ip: Seq<u8>,
    /// The length of the listening window in milliseconds.
    pub window_ms: int,
    /// The number of hosts whose request was dealt with.
    pub sent: nat,
    /// The number of those whose request the link refused.
    pub unsent: nat,
    /// The hosts that answered.
    pub replies: Map<u32, Seq<u8>>,
    /// Why the scan did not take place, if it did not.
    pub failure: Option<ScanError>,
}

/// The error that a failure to open the channel makes.
pub open spec fn channel_error(failure: ChannelFailure) -> ScanError {
    match failure {
        ChannelFailure::Refused => ScanError::ChannelRefused,
        ChannelFailure::Unsupported => ScanError::ChannelUnsupported,
    }
}

/// The replies after one more inbound frame: an ARP reply files its
/// sender, in place of an earlier entry for the same protocol address; any
/// other frame, and a failed attempt, change nothing.
pub open spec fn after_frame(replies: Map<u32, Seq<u8>>, frame: Option<Vec<u8>>) -> Map<
    u32,
    Seq<u8>,
> {
    match frame {
        Some(bytes) => if is_arp_reply(bytes@) {
            replies.insert(be_value(frame_sender_ip(bytes@)) as u32, frame_sender_mac(bytes@))
        } else {
            replies
        },
        None => replies,
    }
}

/// The state after an event. An event that does not belong to the phase
/// changes nothing.
pub open spec fn after_event(s: EngineState, event: ScanEvent) -> EngineState {
    match (s.phase, event) {
        (ScanPhase::Idle, ScanEvent::ChannelOpened) => EngineState {
            phase: if host_total(s.prefix) > 0 {
                ScanPhase::Transmitting
            } else {
                ScanPhase::Listening
            },
            ..s
        },
        (ScanPhase::Idle, ScanEvent::ChannelFailed(failure)) => EngineState {
            phase: ScanPhase::Done,
            failure: Some(channel_error(failure)),
            ..s
        },
        (ScanPhase::Transmitting, ScanEvent::Sent { delivered }) => EngineState {
            phase: if s.sent + 1 < host_total(s.prefix) {
                ScanPhase::Transmitting
            } else {
                ScanPhase::Listening
            },
            sent: s.sent + 1,
            unsent: if delivered {
                s.unsent
            } else {
                s.unsent + 1
            },
            ..s
        },
        (ScanPhase::Listening, ScanEvent::Received { frame, elapsed_ms }) => EngineState {
            phase: if elapsed_ms >= s.window_ms {
                ScanPhase::Reporting
            } else {
                ScanPhase::Listening
            },
            replies: after_frame(s.replies, frame),
            ..s
        },
        (ScanPhase::Reporting, ScanEvent::Reported) => EngineState { phase: ScanPhase::Done, ..s },
        _ => s,
    }
}

/// The state after the given events, in order.
pub open spec fn after_events(s: EngineState, events: Seq<ScanEvent>) -> EngineState
    decreases events.len(),
{
    if events.len() == 0 {
        s
    } else {
        after_event(after_events(s, events.drop_last()), events.last())
    }
}

/// Whether an event brings an ARP reply.
pub open spec fn brings_reply(event: ScanEvent) -> bool {
    event matches ScanEvent::Received { frame: Some(bytes), .. } && is_arp_reply(bytes@)
}

/// A frame that is not of type ARP files nothing, whatever else it holds.
pub proof fn lemma_other_type_files_nothing(replies: Map<u32, Seq<u8>>, frame: Vec<u8>)
    requires
        frame@.len() < 14 || crate::frame::frame_ethertype(frame@) != crate::frame::ETHERTYPE_ARP,
    ensures
        !is_arp_reply(frame@),
        after_frame(replies, Some(frame)) == replies,
{
}

/// An ARP frame whose operation is not "reply", such as a request, files
/// nothing.
pub proof fn lemma_other_operation_files_nothing(replies: Map<u32, Seq<u8>>, frame: Vec<u8>)
    requires
        frame@.len() < 42 || crate::frame::frame_operation(frame@) != crate::frame::ARP_REPLY,
    ensures
        !is_arp_reply(frame@),
        after_frame(replies, Some(frame)) == replies,
{
}

/// Of two replies from one protocol address the later one stays: the
/// replies are as if the earlier one had never come.
pub proof fn lemma_last_reply_wins(replies: Map<u32, Seq<u8>>, first: Vec<u8>, second: Vec<u8>)
    requires
        is_arp_reply(first@),
        is_arp_reply(second@),
        frame_sender_ip(first@) == frame_sender_ip(second@),
    ensures
        ({
            let ip = be_value(frame_sender_ip(second@)) as u32;
            let both = after_frame(after_frame(replies, Some(first)), Some(second));
            &&& both == after_frame(replies, Some(second))
            &&& both.contains_key(ip)
            &&& both[ip] == frame_sender_mac(second@)
        }),
{
    let ip = be_value(frame_sender_ip(second@)) as u32;
    assert(replies.insert(ip, frame_sender_mac(first@)).insert(ip, frame_sender_mac(second@))
        =~= replies.insert(ip, frame_sender_mac(second@)));
}

/// A scan to which no reply comes ends with no host found, and unless the
/// channel could not be opened it ends without a failure: where it is
/// done, what is due is to finish with success.
pub proof fn lemma_silence_is_no_failure(s: EngineState, events: Seq<ScanEvent>)
    requires
        s.replies == Map::<u32, Seq<u8>>::empty(),
        s.failure is None,
        forall|i: int| 0 <= i < events.len() ==> !brings_reply(#[trigger] events[i]),
        forall|i: int| 0 <= i < events.len() ==> !(#[trigger] events[i] is ChannelFailed),
    ensures
        after_events(s, events).replies == Map::<u32, Seq<u8>>::empty(),
        after_events(s, events).failure is None,
        after_events(s, events).phase is Done ==> is_due(
            ScanAction::Finish(ScanOutcome::Success),
            after_events(s, events),
        ),
    decreases events.len(),
{
    if events.len() > 0 {
        let before = events.drop_last();
        assert forall|i: int| 0 <= i < before.len() implies !brings_reply(#[trigger] before[i]) by {
            assert(before[i] == events[i]);
        }
        assert forall|i: int| 0 <= i < before.len() implies !(
        #[trigger] before[i] is ChannelFailed) by {
            assert(before[i] == events[i]);
        }
        lemma_silence_is_no_failure(s, before);
        assert(!brings_reply(events[events.len() - 1]));
        assert(!(events[events.len() - 1] is ChannelFailed));
    }
}

/// The events that tell how a run of requests fared.
pub open spec fn sent_events(fared: Seq<bool>) -> Seq<ScanEvent> {
    Seq::new(fared.len(), |i: int| ScanEvent::Sent { delivered: fared[i] })
}

/// The sweep asks for every host once, whether or not the link takes the
/// requests: while hosts are left, each request dealt with moves the scan
/// on by one host, and with the last one listening begins. Nothing else
/// changes but the count of requests that the link refused.
pub proof fn lemma_sweep(s: EngineState, fared: Seq<bool>)
    requires
        s.phase is Transmitting,
        s.sent < host_total(s.prefix),
        s.sent + fared.len() <= host_total(s.prefix),
    ensures
        ({
            let t = after_events(s, sent_events(fared));
            &&& t.sent == s.sent + fared.len()
            &&& t.phase == if t.sent < host_total(s.prefix) {
                ScanPhase::Transmitting
            } else {
                ScanPhase::Listening
            }
            &&& s.unsent <= t.unsent <= s.unsent + fared.len()
            &&& t == EngineState { phase: t.phase, sent: t.sent, unsent: t.unsent, ..s }
        }),
    decreases fared.len(),
{
    if fared.len() > 0 {
        let before = fared.drop_last();
        lemma_sweep(s, before);
        assert(sent_events(fared).drop_last() =~= sent_events(before));
        assert(sent_events(fared).last() == ScanEvent::Sent { delivered: fared.last() });
    }
}

/// A scan never goes back: after an event it is in the phase it was in,
/// or in a later one.
pub proof fn lemma_phases_advance(s: EngineState, event: ScanEvent)
    ensures
        phase_rank(s.phase) <= phase_rank(after_event(s, event).phase),
{
}

/// The place of a phase in the course of a scan.
pub open spec fn phase_rank(phase: ScanPhase) -> int {
    match phase {
        ScanPhase::Idle => 0,
        ScanPhase::Transmitting => 1,
        ScanPhase::Listening => 2,
        ScanPhase::Reporting => 3,
        ScanPhase::Done => 4,
    }
}

/// A failure to open the channel ends the scan before anything is sent.
pub proof fn lemma_channel_failure_ends(s: EngineState, failure: ChannelFailure)
    requires
        s.phase is Idle,
    ensures
        ({
            let t = after_event(s, ScanEvent::ChannelFailed(failure));
            &&& t.phase is Done
            &&& t.sent == s.sent
            &&& is_due(ScanAction::Finish(ScanOutcome::Failure(channel_error(failure))), t)
        }),
{
}

/// How a scan in the given state ends.
pub open spec fn outcome_of(failure: Option<ScanError>) -> ScanOutcome {
    match failure {
        Some(e) => ScanOutcome::Failure(e),
        None => ScanOutcome::Success,
    }
}

/// Whether `action` is what the engine asks for in state `s`.
pub open spec fn is_due(action: ScanAction, s: EngineState) -> bool {
    match s.phase {
        ScanPhase::Idle => action == ScanAction::OpenChannel,
        ScanPhase::Transmitting => {
            &&& action matches ScanAction::Transmit { target, frame }
            &&& target.value() == host_value(s.base, s.prefix, s.sent as int)
            &&& frame@ == arp_request_bytes(s.source_mac, s.source_ip, target@)
        },
        ScanPhase::Listening => action == ScanAction::Receive,
        ScanPhase::Reporting => action == ScanAction::Report,
        ScanPhase::Done => action == ScanAction::Finish(outcome_of(s.failure)),
    }
}

/// The decisions of one scan.
pub struct ScanEngine {
    phase: ScanPhase,
    subnet: Subnet,
    source_mac: HardwareAddress,
    source_ip: Ipv4Address,
    window_ms: u64,
    sent: u64,
    unsent: u64,
    results: ScanResult,
    failure: Option<ScanError>,
}

impl View for ScanEngine {
    type V = EngineState;

    closed spec fn view(&self) -> EngineState {
        EngineState {
            phase: self.phase,
            base: self.subnet@.base,
            prefix: self.subnet@.prefix,
            source_mac: self.source_mac@,
            source_ip: self.source_ip@,
            window_ms: self.window_ms as int,
            sent: self.sent as nat,
            unsent: self.unsent as nat,
            replies: self.results@,
            failure: self.failure,
        }
    }
}

/// The listening window of a scan that is given no other, in milliseconds.
pub const DEFAULT_WINDOW_MS: u64 = 5000;

impl ScanEngine {
    /// No request is counted that the subnet has no host for, none before
    /// the scan starts, and while requests go out there is a host left to
    /// ask for.
    pub closed spec fn wf(&self) -> bool {
        &&& self.subnet.wf()
        &&& self.sent <= host_total(self.subnet@.prefix)
        &&& self.unsent <= self.sent
        &&& self.phase is Idle ==> self.sent == 0
        &&& self.phase is Transmitting ==> self.sent < host_total(self.subnet@.prefix)
    }

    /// A scan that has not started, with a listening window of `window_ms`
    /// milliseconds.
    pub fn new(plan: ScanPlan, window_ms: u64) -> (r: ScanEngine)
        requires
            plan.subnet.wf(),
        ensures
            r.wf(),
            r@ == (EngineState {
                phase: ScanPhase::Idle,
                base: plan.subnet@.base,
                prefix: plan.subnet@.prefix,
                source_mac: plan.source_mac@,
                source_ip: plan.source_ip@,
                window_ms: window_ms as int,
                sent: 0,
                unsent: 0,
                replies: Map::empty(),
                failure: None,
            }),
    {
        ScanEngine {
            phase: ScanPhase::Idle,
            subnet: plan.subnet,
            source_mac: plan.source_mac,
            source_ip: plan.source_ip,
            window_ms,
            sent: 0,
            unsent: 0,
            results: ScanResult::new(),
            failure: None,
        }
    }

    /// Where the scan stands.
    pub fn phase(&self) -> (r: ScanPhase)
        ensures
            r == self@.phase,
    {
        self.phase
    }

    /// The hosts that have answered so far.
    pub fn results(&self) -> (r: &ScanResult)
        ensures
            r@ == self@.replies,
    {
        &self.results
    }

    /// The number of hosts whose request was dealt with.
    pub fn sent(&self) -> (r: u64)
        ensures
            r == self@.sent,
    {
        self.sent
    }

    /// The number of hosts whose request the link refused. Such a host was
    /// never asked; the report does not tell it from one that kept silent.
    pub fn unsent(&self) -> (r: u64)
        ensures
            r == self@.unsent,
    {
        self.unsent
    }

    /// What the engine asks for now.
    pub fn pending(&self) -> (action: ScanAction)
        requires
            self.wf(),
        ensures
            is_due(action, self@),
    {
        match self.phase {
            ScanPhase::Idle => ScanAction::OpenChannel,
            ScanPhase::Transmitting => {
                let target = self.subnet.host(self.sent);
                let frame = build_arp_request(&self.source_mac, &self.source_ip, &target);
                ScanAction::Transmit { target, frame }
            },
            ScanPhase::Listening => ScanAction::Receive,
            ScanPhase::Reporting => ScanAction::Report,
            ScanPhase::Done => match self.failure {
                Some(e) => ScanAction::Finish(ScanOutcome::Failure(e)),
                None => ScanAction::Finish(ScanOutcome::Success),
            },
        }
    }

    /// Takes note of what happened and says what to do next.
    pub fn step(&mut self, event: ScanEvent) -> (action: ScanAction)
        requires
            old(self).wf(),
        ensures
            final(self).wf(),
            final(self)@ == after_event(old(self)@, event),
            is_due(action, final(self)@),
    {
        match self.phase {
            ScanPhase::Idle => match event {
                ScanEvent::ChannelOpened => {
                    if self.subnet.host_count() > 0 {
                        self.phase = ScanPhase::Transmitting;
                    } else {
                        self.phase = ScanPhase::Listening;
                    }
                },
                ScanEvent::ChannelFailed(failure) => {
                    self.phase = ScanPhase::Done;
                    self.failure = Some(
                        match failure {
                            ChannelFailure::Refused => ScanError::ChannelRefused,
                            ChannelFailure::Unsupported => ScanError::ChannelUnsupported,
                        },
                    );
                },
                _ => {},
            },
            ScanPhase::Transmitting => match event {
                ScanEvent::Sent { delivered } => {
                    proof {
                        lemma_block_bounds(self.subnet@.base, self.subnet@.prefix);
                    }
                    self.sent = self.sent + 1;
                    if !delivered {
                        self.unsent = self.unsent + 1;
                    }
                    if self.sent >= self.subnet.host_count() {
                        self.phase = ScanPhase::Listening;
                    }
                },
                _ => {},
            },
            ScanPhase::Listening => match event {
                ScanEvent::Received { frame, elapsed_ms } => {
                    match frame {
                        Some(bytes) => match decode_arp_reply(&bytes) {
                            Some(reply) => {
                                self.results.record(reply.sender_ip, reply.sender_mac);
                            },
                            None => {},
                        },
                        None => {},
                    }
                    if elapsed_ms >= self.window_ms {
                        self.phase = ScanPhase::Reporting;
                    }
                },
                _ => {},
            },
            ScanPhase::Reporting => match event {
                ScanEvent::Reported => {
                    self.phase = ScanPhase::Done;
                },
                _ => {},
            },
            ScanPhase::Done => {},
        }
        self.pending()
    }

    /// The report: one record for each host that has answered so far, in
    /// no particular order.
    pub fn report(&self, registry: &VendorRegistry) -> (r: Vec<ScanRecord>)
        ensures
            reports(r@, self@.replies, registry@),
    {
        self.results.report(registry)
    }
}

} // verus!
