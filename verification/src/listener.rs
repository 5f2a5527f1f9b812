//! The listener on the two UDP ports, as a state machine.
//!
//! It first listens for the numbers that others use, then takes a free one and joins the
//! network. From then on it announces itself, sends its status, takes in what others
//! send, and forgets those who have gone silent. [`Listener::step`] takes what the last
//! action led to and names the next one.

use crate::bytes::be32_value;
use crate::client::ProDjLinkClient;
use crate::fetch::{elapsed, time_since};
use crate::model::{datagram_view, Datagram, DatagramView, DeviceAddr};
use crate::packet::{
    broadcast_ip, build_keep_alive_packet, build_status_packet, get_pseudo_mac, keep_alive_id,
    keep_alive_packet, read_keep_alive_id, read_status_id, status_id, status_packet,
};
use crate::state::ClientView;
use std::collections::HashSet;
use vstd::prelude::*;
use vstd::string::StringExecFns;

verus! {

broadcast use vstd::std_specs::hash::group_hash_axioms;

/// The UDP port for announcements.
pub const ANNOUNCE_PORT: u16 = 50000;

/// The UDP port for status packets.
pub const STATUS_PORT: u16 = 50002;

/// No more of a packet than this many bytes is looked at.
pub const DATAGRAM_SIZE: usize = 512;

/// How long to listen for numbers in use, in nanoseconds.
pub const SCAN_DURATION: u64 = 2_000_000_000;

/// How long to wait between two looks while scanning, in milliseconds.
pub const SCAN_PAUSE: u64 = 50;

/// A keep-alive packet is sent this often, in nanoseconds.
pub const ANNOUNCE_INTERVAL: u64 = 1_500_000_000;

/// A status packet is sent this often, in nanoseconds.
pub const STATUS_INTERVAL: u64 = 200_000_000;

/// Silent devices are looked for once more than this has passed, in nanoseconds.
pub const PRUNE_INTERVAL: u64 = 2_000_000_000;

/// What the listener awaits.
#[derive(Clone, Copy, Debug, PartialEq, Eq, Structural)]
pub enum ListenerStage {
    /// Scanning: about to look at both ports, if there is time.
    Scan,
    /// Scanning: a packet from the announcement port, or none.
    ScanAnnouncement,
    /// Scanning: a packet from the status port, or none.
    ScanStatus,
    /// The keep-alive packet was handed out.
    KeepAliveSent,
    /// The status packet was handed out.
    StatusSent,
    /// A packet from the status port, or none.
    AwaitStatus,
    /// A packet from the announcement port, or none.
    AwaitAnnouncement,
    Stopped,
}

/// A packet to send, and where to: an IPv4 address, octet by octet, and a UDP port.
#[derive(Debug)]
pub struct Outgoing {
    pub data: Vec<u8>,
    pub ip: [u8; 4],
    pub port: u16,
}

/// View of [`Outgoing`].
#[verifier::ext_equal]
pub struct OutgoingView {
    pub data: Seq<u8>,
    pub ip: Seq<u8>,
    pub port: u16,
}

impl View for Outgoing {
    type V = OutgoingView;

    open spec fn view(&self) -> OutgoingView {
        OutgoingView { data: self.data@, ip: self.ip@, port: self.port }
    }
}

/// What to do next.
#[derive(Debug)]
pub enum ListenerAction {
    /// Look for a packet on the announcement port.
    ReceiveAnnouncement,
    /// Look for a packet on the status port.
    ReceiveStatus,
    /// Wait this many milliseconds.
    Pause(u64),
    /// Send this keep-alive packet, from the announcement port.
    SendKeepAlive(Outgoing),
    /// Send this status packet, from the status port.
    SendStatus(Outgoing),
    /// The listener has ended.
    Stop,
}

/// View of [`ListenerAction`].
#[verifier::ext_equal]
pub enum ActionView {
    ReceiveAnnouncement,
    ReceiveStatus,
    Pause(u64),
    SendKeepAlive(OutgoingView),
    SendStatus(OutgoingView),
    Stop,
}

impl View for ListenerAction {
    type V = ActionView;

    open spec fn view(&self) -> ActionView {
        match self {
            ListenerAction::ReceiveAnnouncement => ActionView::ReceiveAnnouncement,
            ListenerAction::ReceiveStatus => ActionView::ReceiveStatus,
            ListenerAction::Pause(time) => ActionView::Pause(*time),
            ListenerAction::SendKeepAlive(packet) => ActionView::SendKeepAlive(packet@),
            ListenerAction::SendStatus(packet) => ActionView::SendStatus(packet@),
            ListenerAction::Stop => ActionView::Stop,
        }
    }
}

/// The listener.
pub struct Listener {
    stage: ListenerStage,
    local_ip: [u8; 4],
    used_ids: HashSet<u8>,
    scan_start: u64,
    device_id: u8,
    last_announce: Option<u64>,
    last_status: Option<u64>,
    last_prune: u64,
    packet_counter: u8,
}

/// View of [`Listener`].
#[verifier::ext_equal]
pub struct ListenerView {
    pub stage: ListenerStage,
    /// Our IPv4 address, octet by octet.
    pub local_ip: Seq<u8>,
    /// The numbers that others were heard to use.
    pub used_ids: Set<u8>,
    pub scan_start: u64,
    /// The number that we took.
    pub device_id: u8,
    pub last_announce: Option<u64>,
    pub last_status: Option<u64>,
    pub last_prune: u64,
    pub packet_counter: u8,
}

impl View for Listener {
    type V = ListenerView;

    closed spec fn view(&self) -> ListenerView {
        ListenerView {
            stage: self.stage,
            local_ip: self.local_ip@,
            used_ids: self.used_ids@,
            scan_start: self.scan_start,
            device_id: self.device_id,
            last_announce: self.last_announce,
            last_status: self.last_status,
            last_prune: self.last_prune,
            packet_counter: self.packet_counter,
        }
    }
}

/// The highest number from `from` down to 1 that `used` does not hold: 7 if there is none.
pub open spec fn free_id(used: Set<u8>, from: nat) -> u8
    decreases from,
{
    if from == 0 {
        7
    } else if !used.contains(from as u8) {
        from as u8
    } else {
        free_id(used, (from - 1) as nat)
    }
}

/// Whether something that is done every `interval` is due: it is if it was never done.
pub open spec fn is_due(last: Option<u64>, interval: u64, now: u64) -> bool {
    match last {
        Some(then) => elapsed(then, now) >= interval,
        None => true,
    }
}

/// Our name on the network, as it goes into packets.
pub open spec fn device_name() -> Seq<u8> {
    vstd::utf8::encode_utf8("REACT"@)
}

/// What a step leads to.
#[verifier::ext_equal]
pub struct StepView {
    pub listener: ListenerView,
    pub client: ClientView,
    pub action: ActionView,
}

impl ListenerView {
    /// At `stage`.
    pub open spec fn at(self, stage: ListenerStage) -> ListenerView {
        ListenerView { stage, ..self }
    }

    /// Our own address.
    pub open spec fn own_addr(self) -> DeviceAddr {
        DeviceAddr::V4(be32_value(self.local_ip) as u32)
    }

    /// The broadcast address of the network that we are in.
    pub open spec fn broadcast(self) -> Seq<u8> {
        seq![self.local_ip[0], self.local_ip[1], self.local_ip[2], 255u8]
    }

    /// The MAC address that we claim.
    pub open spec fn mac(self) -> Seq<u8> {
        seq![0x02u8, 0xc0, 0x11, self.local_ip[1], self.local_ip[2], self.local_ip[3]]
    }

    /// The keep-alive packet that we send when we know `peers` devices: to everybody on
    /// our network, on the announcement port.
    pub open spec fn keep_alive(self, peers: nat) -> OutgoingView {
        OutgoingView {
            data: keep_alive_packet(
                self.device_id,
                device_name(),
                self.mac(),
                self.local_ip,
                peers as u8,
            ),
            ip: self.broadcast(),
            port: ANNOUNCE_PORT,
        }
    }

    /// The status packet that we send under the number `counter`: to everybody on our
    /// network, on the status port.
    pub open spec fn status(self, counter: u8) -> OutgoingView {
        OutgoingView {
            data: status_packet(self.device_id, device_name(), counter),
            ip: self.broadcast(),
            port: STATUS_PORT,
        }
    }

    /// With one more number in use, if there is one.
    pub open spec fn with_used(self, id: Option<u8>) -> ListenerView {
        match id {
            Some(id) => ListenerView { used_ids: self.used_ids.insert(id), ..self },
            None => self,
        }
    }

    /// Takes the highest free number and joins the network under it.
    pub open spec fn joined(self, now: u64) -> ListenerView {
        ListenerView {
            device_id: free_id(self.used_ids, 6),
            last_announce: None,
            last_status: None,
            last_prune: now,
            packet_counter: 0,
            ..self
        }
    }

    /// Scans on, or joins the network if the time for scanning is over.
    pub open spec fn scan(self, client: ClientView, now: u64, running: bool) -> StepView {
        if elapsed(self.scan_start, now) < SCAN_DURATION && running {
            StepView {
                listener: self.at(ListenerStage::ScanAnnouncement),
                client,
                action: ActionView::ReceiveAnnouncement,
            }
        } else {
            let joined = self.joined(now);
            joined.announce(
                ClientView { our_device_id: joined.device_id, ..client },
                now,
                running,
            )
        }
    }

    /// The start of a round: announces us if that is due, unless the listener is to stop.
    pub open spec fn announce(self, client: ClientView, now: u64, running: bool) -> StepView {
        if !running {
            StepView {
                listener: self.at(ListenerStage::Stopped),
                client,
                action: ActionView::Stop,
            }
        } else if is_due(self.last_announce, ANNOUNCE_INTERVAL, now) {
            StepView {
                listener: self.at(ListenerStage::KeepAliveSent),
                client,
                action: ActionView::SendKeepAlive(self.keep_alive(client.devices.len())),
            }
        } else {
            self.report(client, now)
        }
    }

    /// Sends our status if that is due; else looks at the status port.
    pub open spec fn report(self, client: ClientView, now: u64) -> StepView {
        if is_due(self.last_status, STATUS_INTERVAL, now) {
            StepView {
                listener: ListenerView {
                    stage: ListenerStage::StatusSent,
                    packet_counter: if self.packet_counter < 255 {
                        (self.packet_counter + 1) as u8
                    } else {
                        0
                    },
                    ..self
                },
                client,
                action: ActionView::SendStatus(self.status(self.packet_counter)),
            }
        } else {
            StepView {
                listener: self.at(ListenerStage::AwaitStatus),
                client,
                action: ActionView::ReceiveStatus,
            }
        }
    }

    /// The end of a round: forgets silent devices if that is due, and starts the next.
    pub open spec fn next_round(self, client: ClientView, now: u64, running: bool) -> StepView {
        if elapsed(self.last_prune, now) > PRUNE_INTERVAL {
            ListenerView { last_prune: now, ..self }.announce(client.pruned(now), now, running)
        } else {
            self.announce(client, now, running)
        }
    }

    /// What a step leads to, given the packet that the last action brought, if any.
    pub open spec fn next(
        self,
        client: ClientView,
        received: Option<DatagramView>,
        now: u64,
        running: bool,
    ) -> StepView {
        match self.stage {
            ListenerStage::Scan => self.scan(client, now, running),
            ListenerStage::ScanAnnouncement => StepView {
                listener: self.with_used(
                    match received {
                        Some(packet) => keep_alive_id(packet.data),
                        None => None,
                    },
                ).at(ListenerStage::ScanStatus),
                client,
                action: ActionView::ReceiveStatus,
            },
            ListenerStage::ScanStatus => StepView {
                listener: self.with_used(
                    match received {
                        Some(packet) => status_id(packet.data),
                        None => None,
                    },
                ).at(ListenerStage::Scan),
                client,
                action: ActionView::Pause(SCAN_PAUSE),
            },
            ListenerStage::KeepAliveSent => ListenerView {
                last_announce: Some(now),
                ..self
            }.report(client, now),
            ListenerStage::StatusSent => StepView {
                listener: ListenerView {
                    stage: ListenerStage::AwaitStatus,
                    last_status: Some(now),
                    ..self
                },
                client,
                action: ActionView::ReceiveStatus,
            },
            ListenerStage::AwaitStatus => match received {
                Some(packet) if packet.source == self.own_addr() => self.announce(
                    client,
                    now,
                    running,
                ),
                _ => StepView {
                    listener: self.at(ListenerStage::AwaitAnnouncement),
                    client: match received {
                        Some(packet) => client.with_status_packet(packet, now),
                        None => client,
                    },
                    action: ActionView::ReceiveAnnouncement,
                },
            },
            ListenerStage::AwaitAnnouncement => self.next_round(
                match received {
                    Some(packet) => client.with_announcement(packet, now),
                    None => client,
                },
                now,
                running,
            ),
            ListenerStage::Stopped => StepView {
                listener: self,
                client,
                action: ActionView::Stop,
            },
        }
    }
}

/// The error where we cannot tell our own address.
pub fn no_address_message() -> (text: String)
    ensures
        text@ == "Could not determine local IP address"@,
{
    "Could not determine local IP address".to_owned()
}

/// The error where the status port cannot be had, because of `error`.
pub fn bind_failure_message(error: &str) -> (text: String)
    ensures
        text@ == "Failed to bind port 50002: "@ + error@ + " (rekordbox running?)"@,
{
    "Failed to bind port 50002: ".to_owned().concat(error).concat(" (rekordbox running?)")
}

/// Whether something that is done every `interval` is due.
fn due(last: Option<u64>, interval: u64, now: u64) -> (yes: bool)
    ensures
        yes == is_due(last, interval, now),
{
    match last {
        Some(then) => time_since(then, now) >= interval,
        None => true,
    }
}

/// The number that we take: the highest that nobody uses, or 7 if all six are in use.
pub fn select_device_id(used_ids: &HashSet<u8>) -> (id: u8)
    ensures
        id == free_id(used_ids@, 6),
        1 <= id <= 7,
{
    let mut id: u8 = 6;
    while id > 0
        invariant
            id <= 6,
            free_id(used_ids@, id as nat) == free_id(used_ids@, 6),
        decreases id,
    {
        if !used_ids.contains(&id) {
            return id;
        }
        id = id - 1;
    }
    7
}

impl Listener {
    /// A listener at the local address `local_ip` that starts to scan.
    pub fn new(local_ip: [u8; 4], now: u64) -> (listener: Listener)
        ensures
            listener@ == (ListenerView {
                stage: ListenerStage::Scan,
                local_ip: local_ip@,
                used_ids: Set::empty(),
                scan_start: now,
                device_id: 7,
                last_announce: None,
                last_status: None,
                last_prune: now,
                packet_counter: 0,
            }),
    {
        Listener {
            stage: ListenerStage::Scan,
            local_ip,
            used_ids: HashSet::new(),
            scan_start: now,
            device_id: 7,
            last_announce: None,
            last_status: None,
            last_prune: now,
            packet_counter: 0,
        }
    }

    /// Whether a packet comes from our own address.
    fn is_own(&self, packet: &Datagram) -> (yes: bool)
        ensures
            yes == (packet@.source == self@.own_addr()),
    {
        let addr = crate::bytes::read_be32(&self.local_ip, 0);
        assert(self.local_ip@.subrange(0, 4) =~= self.local_ip@);
        packet.source == DeviceAddr::V4(addr)
    }

    /// Scans on, or joins the network if the time for scanning is over.
    fn scan(&mut self, client: &mut ProDjLinkClient, now: u64, running: bool) -> (action:
        ListenerAction)
        requires
            old(client).wf(),
        ensures
            final(client).wf(),
            (StepView { listener: final(self)@, client: final(client)@, action: action@ })
                == old(self)@.scan(old(client)@, now, running),
    {
        if time_since(self.scan_start, now) < SCAN_DURATION && running {
            self.stage = ListenerStage::ScanAnnouncement;
            ListenerAction::ReceiveAnnouncement
        } else {
            self.device_id = select_device_id(&self.used_ids);
            client.set_our_device_id(self.device_id);
            self.last_announce = None;
            self.last_status = None;
            self.last_prune = now;
            self.packet_counter = 0;
            assert(self@ =~= old(self)@.joined(now));
            self.announce(client, now, running)
        }
    }

    /// The start of a round.
    fn announce(&mut self, client: &ProDjLinkClient, now: u64, running: bool) -> (action:
        ListenerAction)
        requires
            client.wf(),
        ensures
            (StepView { listener: final(self)@, client: client@, action: action@ }) == old(
                self,
            )@.announce(client@, now, running),
    {
        if !running {
            self.stage = ListenerStage::Stopped;
            ListenerAction::Stop
        } else if due(self.last_announce, ANNOUNCE_INTERVAL, now) {
            self.stage = ListenerStage::KeepAliveSent;
            let mac = get_pseudo_mac(&self.local_ip);
            let data = build_keep_alive_packet(
                self.device_id,
                "REACT",
                &mac,
                &self.local_ip,
                client.peer_count(),
            );
            ListenerAction::SendKeepAlive(
                Outgoing { data, ip: broadcast_ip(&self.local_ip), port: ANNOUNCE_PORT },
            )
        } else {
            self.report(client, now)
        }
    }

    /// Sends our status if that is due; else looks at the status port.
    fn report(&mut self, client: &ProDjLinkClient, now: u64) -> (action: ListenerAction)
        ensures
            (StepView { listener: final(self)@, client: client@, action: action@ }) == old(
                self,
            )@.report(client@, now),
    {
        if due(self.last_status, STATUS_INTERVAL, now) {
            self.stage = ListenerStage::StatusSent;
            let data = build_status_packet(self.device_id, "REACT", self.packet_counter);
            self.packet_counter = self.packet_counter.wrapping_add(1);
            ListenerAction::SendStatus(
                Outgoing { data, ip: broadcast_ip(&self.local_ip), port: STATUS_PORT },
            )
        } else {
            self.stage = ListenerStage::AwaitStatus;
            ListenerAction::ReceiveStatus
        }
    }

    /// The end of a round.
    fn next_round(&mut self, client: &mut ProDjLinkClient, now: u64, running: bool) -> (action:
        ListenerAction)
        requires
            old(client).wf(),
        ensures
            final(client).wf(),
            (StepView { listener: final(self)@, client: final(client)@, action: action@ })
                == old(self)@.next_round(old(client)@, now, running),
    {
        if time_since(self.last_prune, now) > PRUNE_INTERVAL {
            client.prune(now);
            self.last_prune = now;
        }
        self.announce(client, now, running)
    }

    /// Notes that a number is in use.
    fn note_used(&mut self, id: Option<u8>)
        ensures
            final(self)@ == old(self)@.with_used(id),
    {
        match id {
            Some(id) => {
                self.used_ids.insert(id);
            },
            None => {},
        }
        assert(self@ =~= old(self)@.with_used(id));
    }

    /// The next action, given the packet that the last one brought, if any, and whether
    /// the listener is to go on.
    pub fn step(
        &mut self,
        client: &mut ProDjLinkClient,
        received: Option<Datagram>,
        now: u64,
        running: bool,
    ) -> (action: ListenerAction)
        requires
            old(client).wf(),
        ensures
            final(client).wf(),
            (StepView { listener: final(self)@, client: final(client)@, action: action@ })
                == old(self)@.next(old(client)@, datagram_view(received), now, running),
    {
        match self.stage {
            ListenerStage::Scan => self.scan(client, now, running),
            ListenerStage::ScanAnnouncement => {
                let id = match &received {
                    Some(packet) => read_keep_alive_id(packet.data.as_slice()),
                    None => None,
                };
                self.note_used(id);
                self.stage = ListenerStage::ScanStatus;
                ListenerAction::ReceiveStatus
            },
            ListenerStage::ScanStatus => {
                let id = match &received {
                    Some(packet) => read_status_id(packet.data.as_slice()),
                    None => None,
                };
                self.note_used(id);
                self.stage = ListenerStage::Scan;
                ListenerAction::Pause(SCAN_PAUSE)
            },
            ListenerStage::KeepAliveSent => {
                self.last_announce = Some(now);
                self.report(client, now)
            },
            ListenerStage::StatusSent => {
                self.last_status = Some(now);
                self.stage = ListenerStage::AwaitStatus;
                ListenerAction::ReceiveStatus
            },
            ListenerStage::AwaitStatus => {
                match &received {
                    Some(packet) => {
                        if self.is_own(packet) {
                            return self.announce(client, now, running);
                        }
                        client.receive_status_packet(packet, now);
                    },
                    None => {},
                }
                self.stage = ListenerStage::AwaitAnnouncement;
                ListenerAction::ReceiveAnnouncement
            },
            ListenerStage::AwaitAnnouncement => {
                match &received {
                    Some(packet) => {
                        client.receive_announcement(packet, now);
                    },
                    None => {},
                }
                self.next_round(client, now, running)
            },
            ListenerStage::Stopped => ListenerAction::Stop,
        }
    }
}

} // verus!
