//! What the listener does when, and that those who have left are forgotten.

use crate::laws::listener::{follows, is_run, is_scanning, listener_before, EventView};
use crate::listener::{device_name, free_id, ActionView, ListenerStage, ListenerView, StepView};
use crate::model::{DatagramView, DeviceAddr, DeviceView};
use crate::packet::{keep_alive_id, keep_alive_packet, status_id, status_packet};
use crate::state::ClientView;
use vstd::prelude::*;

verus! {

/// Our name on the network, letter by letter.
pub proof fn law_device_name()
    ensures
        device_name() == seq![0x52u8, 0x45, 0x41, 0x43, 0x54],
{
    reveal_strlit("REACT");
    let name = "REACT"@;
    assert(name =~= seq!['R', 'E', 'A', 'C', 'T']);
    lemma_ascii('R', seq!['E', 'A', 'C', 'T'], 0x52);
    lemma_ascii('E', seq!['A', 'C', 'T'], 0x45);
    lemma_ascii('A', seq!['C', 'T'], 0x41);
    lemma_ascii('C', seq!['T'], 0x43);
    lemma_ascii('T', Seq::empty(), 0x54);
    assert(seq!['R'] + seq!['E', 'A', 'C', 'T'] =~= name);
    assert(seq!['E'] + seq!['A', 'C', 'T'] =~= seq!['E', 'A', 'C', 'T']);
    assert(seq!['A'] + seq!['C', 'T'] =~= seq!['A', 'C', 'T']);
    assert(seq!['C'] + seq!['T'] =~= seq!['C', 'T']);
    assert(seq!['T'] + Seq::<char>::empty() =~= seq!['T']);
    assert(device_name() =~= seq![0x52u8, 0x45, 0x41, 0x43, 0x54]);
}

/// An ASCII character is one byte.
proof fn lemma_ascii(c: char, rest: Seq<char>, byte: u8)
    requires
        c as int == byte,
        byte < 0x80,
    ensures
        vstd::utf8::encode_utf8(seq![c] + rest) == seq![byte] + vstd::utf8::encode_utf8(rest),
{
    let text = seq![c] + rest;
    assert(text[0] == c);
    assert(text.drop_first() =~= rest);
    let scalar = c as u32;
    assert(scalar == byte);
    assert((scalar & 0x7f) as u8 == byte) by (bit_vector)
        requires
            scalar == byte,
            byte < 0x80u8,
    ;
    assert(vstd::utf8::encode_scalar(scalar) =~= seq![byte]);
}

/// Our addresses: the local one, the MAC made of its last three octets, and the broadcast
/// address of its /24 network.
pub proof fn law_addresses(listener: ListenerView)
    requires
        listener.local_ip.len() == 4,
    ensures
        ({
            let ip = listener.local_ip;
            &&& listener.own_addr() matches DeviceAddr::V4(addr) && addr == ip[0] * 16_777_216
                + ip[1] * 65_536 + ip[2] * 256 + ip[3]
            &&& listener.mac() == seq![0x02u8, 0xc0, 0x11, ip[1], ip[2], ip[3]]
            &&& listener.broadcast() == seq![ip[0], ip[1], ip[2], 255u8]
        }),
{
}

/// What is sent: keep-alive packets to the broadcast address on port 50000, status packets
/// to the same address on port 50002, all under our number and name.
pub proof fn law_outgoing(listener: ListenerView, peers: nat, counter: u8)
    ensures
        listener.keep_alive(peers).port == 50_000,
        listener.keep_alive(peers).ip == listener.broadcast(),
        listener.keep_alive(peers).data == keep_alive_packet(
            listener.device_id,
            device_name(),
            listener.mac(),
            listener.local_ip,
            peers as u8,
        ),
        listener.status(counter).port == 50_002,
        listener.status(counter).ip == listener.broadcast(),
        listener.status(counter).data == status_packet(listener.device_id, device_name(), counter),
{
}

/// Scanning: for two seconds both ports are looked at in turn, with 50 ms between; the
/// numbers heard are noted, and nothing else changes. Then, or when told to stop, we have a
/// number, which the client learns; going on, we announce it at once.
pub proof fn law_scan(
    listener: ListenerView,
    client: ClientView,
    received: Option<DatagramView>,
    now: u64,
    running: bool,
)
    requires
        is_scanning(listener.stage),
    ensures
        ({
            let step = listener.next(client, received, now, running);
            let after = step.listener;
            let time_left = now < listener.scan_start + 2_000_000_000;
            &&& after.scan_start == listener.scan_start
            &&& after.local_ip == listener.local_ip
            &&& step.client == (ClientView { our_device_id: step.client.our_device_id, ..client })
            &&& listener.stage == ListenerStage::Scan && running && time_left ==> {
                &&& after == (ListenerView { stage: ListenerStage::ScanAnnouncement, ..listener })
                &&& step.action == ActionView::ReceiveAnnouncement
                &&& step.client == client
            }
            &&& listener.stage == ListenerStage::Scan && !(running && time_left) ==> {
                &&& after.device_id == free_id(listener.used_ids, 6)
                &&& step.client.our_device_id == after.device_id
            }
            &&& listener.stage == ListenerStage::Scan && !running ==> step.action
                == ActionView::Stop && after.stage == ListenerStage::Stopped
            &&& listener.stage == ListenerStage::Scan && running && !time_left ==> {
                &&& after.stage == ListenerStage::KeepAliveSent
                &&& step.action == ActionView::SendKeepAlive(after.keep_alive(client.devices.len()))
                &&& after.used_ids == listener.used_ids
                &&& after.last_announce is None && after.last_status is None
                &&& after.last_prune == now
                &&& after.packet_counter == 0
            }
            &&& listener.stage == ListenerStage::ScanAnnouncement ==> {
                &&& after == (ListenerView {
                    stage: ListenerStage::ScanStatus,
                    used_ids: after.used_ids,
                    ..listener
                })
                &&& step.action == ActionView::ReceiveStatus
                &&& step.client == client
                &&& forall|id: u8| #[trigger]
                    after.used_ids.contains(id) <==> listener.used_ids.contains(id) || (
                    received matches Some(packet) && keep_alive_id(packet.data) == Some(id))
            }
            &&& listener.stage == ListenerStage::ScanStatus ==> {
                &&& after == (ListenerView {
                    stage: ListenerStage::Scan,
                    used_ids: after.used_ids,
                    ..listener
                })
                &&& step.action == ActionView::Pause(50)
                &&& step.client == client
                &&& forall|id: u8| #[trigger]
                    after.used_ids.contains(id) <==> listener.used_ids.contains(id) || (
                    received matches Some(packet) && status_id(packet.data) == Some(id))
            }
        }),
{
}

/// A round starts after the last one ended, and after a packet of our own. If the listener is
/// to go on, a keep-alive packet goes out if there was none in the last 1.5 s; else a status
/// packet if there was none in the last 200 ms; else the status port is looked at.
pub proof fn law_round_start(
    listener: ListenerView,
    client: ClientView,
    received: Option<DatagramView>,
    now: u64,
    running: bool,
)
    requires
        listener.stage == ListenerStage::AwaitAnnouncement || (listener.stage
            == ListenerStage::AwaitStatus && received is Some && received.unwrap().source
            == listener.own_addr()),
    ensures
        ({
            let step = listener.next(client, received, now, running);
            let after = step.listener;
            let announce = match listener.last_announce {
                Some(then) => now >= then + 1_500_000_000,
                None => true,
            };
            let report = match listener.last_status {
                Some(then) => now >= then + 200_000_000,
                None => true,
            };
            &&& !running ==> step.action == ActionView::Stop && after.stage
                == ListenerStage::Stopped
            &&& running && announce ==> after.stage == ListenerStage::KeepAliveSent && step.action
                == ActionView::SendKeepAlive(listener.keep_alive(step.client.devices.len()))
            &&& running && !announce && report ==> after.stage == ListenerStage::StatusSent
                && step.action == ActionView::SendStatus(listener.status(listener.packet_counter))
                && after.packet_counter == (listener.packet_counter + 1) % 256
            &&& running && !announce && !report ==> after.stage == ListenerStage::AwaitStatus
                && step.action == ActionView::ReceiveStatus
            &&& !(running && !announce && report) ==> after.packet_counter
                == listener.packet_counter
            &&& after.last_announce == listener.last_announce
            &&& after.last_status == listener.last_status
            &&& after.device_id == listener.device_id
            &&& after.local_ip == listener.local_ip
            &&& after.used_ids == listener.used_ids
            &&& after.scan_start == listener.scan_start
        }),
{
}

/// After a keep-alive packet, a status packet goes out if there was none in the last 200 ms;
/// after that the status port is looked at. When each was sent is noted.
pub proof fn law_round_goes_on(
    listener: ListenerView,
    client: ClientView,
    received: Option<DatagramView>,
    now: u64,
    running: bool,
)
    ensures
        ({
            let step = listener.next(client, received, now, running);
            let after = step.listener;
            let report = match listener.last_status {
                Some(then) => now >= then + 200_000_000,
                None => true,
            };
            &&& listener.stage == ListenerStage::KeepAliveSent ==> {
                &&& step.client == client
                &&& report ==> step.action == ActionView::SendStatus(
                    listener.status(listener.packet_counter),
                ) && after == (ListenerView {
                    stage: ListenerStage::StatusSent,
                    last_announce: Some(now),
                    packet_counter: after.packet_counter,
                    ..listener
                }) && after.packet_counter == (listener.packet_counter + 1) % 256
                &&& !report ==> step.action == ActionView::ReceiveStatus && after == (ListenerView {
                    stage: ListenerStage::AwaitStatus,
                    last_announce: Some(now),
                    ..listener
                })
            }
            &&& listener.stage == ListenerStage::StatusSent ==> {
                &&& step.client == client
                &&& step.action == ActionView::ReceiveStatus
                &&& after == (ListenerView {
                    stage: ListenerStage::AwaitStatus,
                    last_status: Some(now),
                    ..listener
                })
            }
            &&& listener.stage == ListenerStage::Stopped ==> step.client == client && after
                == listener && step.action == ActionView::Stop
        }),
{
}

/// A packet from the status port reaches the client, unless it is from our own address; then
/// the announcement port is looked at.
pub proof fn law_status_port_is_heard(
    listener: ListenerView,
    client: ClientView,
    received: Option<DatagramView>,
    now: u64,
    running: bool,
)
    requires
        listener.stage == ListenerStage::AwaitStatus,
    ensures
        ({
            let step = listener.next(client, received, now, running);
            &&& received is None ==> step.client == client
            &&& received matches Some(packet) ==> {
                &&& packet.source == listener.own_addr() ==> step.client == client
                &&& packet.source != listener.own_addr() ==> step.client
                    == client.with_status_packet(packet, now)
            }
            &&& !(received matches Some(packet) && packet.source == listener.own_addr()) ==> {
                &&& step.action == ActionView::ReceiveAnnouncement
                &&& step.listener == (ListenerView {
                    stage: ListenerStage::AwaitAnnouncement,
                    ..listener
                })
            }
        }),
{
}

/// A packet from the announcement port reaches the client. That ends a round: if more than
/// two seconds have passed since silent devices were last looked for, all that have been
/// silent for ten seconds are forgotten, whatever came in meanwhile.
pub proof fn law_round_end(
    listener: ListenerView,
    client: ClientView,
    received: Option<DatagramView>,
    now: u64,
    running: bool,
    id: u8,
)
    requires
        listener.stage == ListenerStage::AwaitAnnouncement,
    ensures
        ({
            let step = listener.next(client, received, now, running);
            let heard = match received {
                Some(packet) => client.with_announcement(packet, now),
                None => client,
            };
            &&& now > listener.last_prune + 2_000_000_000 ==> {
                &&& step.listener.last_prune == now
                &&& step.client.devices.contains_key(id) <==> heard.devices.contains_key(id) && now
                    < heard.devices[id].last_seen + 10_000_000_000
                &&& step.client.devices.contains_key(id) ==> step.client.devices[id]
                    == heard.devices[id]
                &&& step.client == (ClientView { devices: step.client.devices, ..heard })
            }
            &&& now <= listener.last_prune + 2_000_000_000 ==> step.listener.last_prune
                == listener.last_prune && step.client == heard
        }),
{
}

/// Once on the network, nothing but looking for silent devices changes when they were last
/// looked for.
pub proof fn law_prune_time_changes_by_pruning(
    listener: ListenerView,
    client: ClientView,
    received: Option<DatagramView>,
    now: u64,
    running: bool,
)
    requires
        !is_scanning(listener.stage),
        listener.next(client, received, now, running).listener.last_prune != listener.last_prune,
    ensures
        listener.stage == ListenerStage::AwaitAnnouncement,
        now > listener.last_prune + 2_000_000_000,
        forall|id: u8| #[trigger]
            listener.next(client, received, now, running).client.devices.contains_key(id) ==> now
                < listener.next(client, received, now, running).client.devices[id].last_seen
                + 10_000_000_000,
{
    assert forall|id: u8| #[trigger]
        listener.next(client, received, now, running).client.devices.contains_key(id) implies now
        < listener.next(client, received, now, running).client.devices[id].last_seen
        + 10_000_000_000 by {
        law_round_end(listener, client, received, now, running, id);
    }
}

/// Whether no device has been silent for ten seconds.
spec fn all_fresh(client: ClientView, now: u64) -> bool {
    forall|id: u8| #[trigger]
        client.devices.contains_key(id) ==> now < client.devices[id].last_seen + 10_000_000_000
}

/// What a single step does to devices and to when they were looked through.
spec fn prune_facts(listener: ListenerView, event: EventView, step: StepView) -> bool {
    &&& if is_scanning(listener.stage) {
        &&& step.client.devices == event.client.devices
        &&& is_scanning(step.listener.stage) || step.listener.last_prune == event.now
    } else {
        &&& !is_scanning(step.listener.stage)
        &&& if listener.stage == ListenerStage::AwaitAnnouncement && event.now
            > listener.last_prune + 2_000_000_000 {
            step.listener.last_prune == event.now && all_fresh(step.client, event.now)
        } else {
            step.listener.last_prune == listener.last_prune
        }
    }
    &&& forall|id: u8| #[trigger]
        step.client.devices.contains_key(id) ==> step.client.devices[id].last_seen == event.now || (
        event.client.devices.contains_key(id) && event.client.devices[id].last_seen
            == step.client.devices[id].last_seen)
}

/// A packet brings devices in, or says that they were just seen.
proof fn lemma_seen(client: ClientView, packet: DatagramView, now: u64, id: u8)
    ensures
        client.with_status_packet(packet, now).devices.contains_key(id)
            ==> client.with_status_packet(packet, now).devices[id].last_seen == now || (
        client.devices.contains_key(id) && client.devices[id].last_seen
            == client.with_status_packet(packet, now).devices[id].last_seen),
        client.with_announcement(packet, now).devices.contains_key(id)
            ==> client.with_announcement(packet, now).devices[id].last_seen == now || (
        client.devices.contains_key(id) && client.devices[id].last_seen == client.with_announcement(
            packet,
            now,
        ).devices[id].last_seen),
{
}

/// The facts hold of every step.
proof fn lemma_prune_facts(listener: ListenerView, event: EventView, step: StepView)
    requires
        follows(listener, event, step),
    ensures
        prune_facts(listener, event, step),
{
    assert forall|id: u8| #[trigger] step.client.devices.contains_key(id) implies (
    step.client.devices[id].last_seen == event.now || (event.client.devices.contains_key(id)
        && event.client.devices[id].last_seen == step.client.devices[id].last_seen)) && (
    listener.stage == ListenerStage::AwaitAnnouncement && event.now > listener.last_prune
        + 2_000_000_000 ==> event.now < step.client.devices[id].last_seen + 10_000_000_000) by {
        match event.received {
            Some(packet) => {
                lemma_seen(event.client, packet, event.now, id);
            },
            None => {},
        }
        if listener.stage == ListenerStage::AwaitAnnouncement {
            law_round_end(listener, event.client, event.received, event.now, event.running, id);
        }
    }
}

/// When devices were last looked through is when a step did so, or when it joined.
spec fn looked_through(
    start: ListenerView,
    events: Seq<EventView>,
    steps: Seq<StepView>,
    k: int,
) -> bool {
    all_fresh(steps[k].client, events[k].now) || (is_scanning(
        listener_before(start, steps, k).stage,
    ) && !is_scanning(steps[k].listener.stage))
}

/// Where the time of the last look comes from.
proof fn lemma_last_look(
    start: ListenerView,
    events: Seq<EventView>,
    steps: Seq<StepView>,
    i: int,
) -> (k: int)
    requires
        is_run(start, events, steps),
        0 <= i <= steps.len(),
        !is_scanning(listener_before(start, steps, i).stage),
    ensures
        0 <= k < i,
        looked_through(start, events, steps, k),
        listener_before(start, steps, i).last_prune == events[k].now,
    decreases i,
{
    let before = listener_before(start, steps, i - 1);
    assert(follows(before, events[i - 1], steps[i - 1]));
    lemma_prune_facts(before, events[i - 1], steps[i - 1]);
    if is_scanning(before.stage) || before.stage == ListenerStage::AwaitAnnouncement && events[i
        - 1].now > before.last_prune + 2_000_000_000 {
        i - 1
    } else {
        lemma_last_look(start, events, steps, i - 1)
    }
}

/// Over a whole run, whatever packets come in: when a round ends, then at most two seconds
/// earlier, or just then, a step left no device that had been silent for ten seconds, or the
/// network was joined.
pub proof fn law_rounds_look_for_the_silent(
    start: ListenerView,
    events: Seq<EventView>,
    steps: Seq<StepView>,
    i: int,
)
    requires
        is_run(start, events, steps),
        0 <= i < steps.len(),
        listener_before(start, steps, i).stage == ListenerStage::AwaitAnnouncement,
    ensures
        exists|k: int|
            0 <= k <= i && #[trigger] events[k].now + 2_000_000_000 >= events[i].now && ((forall|
                id: u8,
            | #[trigger]
                steps[k].client.devices.contains_key(id) ==> events[k].now
                    < steps[k].client.devices[id].last_seen + 10_000_000_000) || (is_scanning(
                listener_before(start, steps, k).stage,
            ) && !is_scanning(steps[k].listener.stage))),
{
    let k = lemma_recent_look(start, events, steps, i);
    assert(events[k].now + 2_000_000_000 >= events[i].now);
}

/// The recent look.
proof fn lemma_recent_look(
    start: ListenerView,
    events: Seq<EventView>,
    steps: Seq<StepView>,
    i: int,
) -> (k: int)
    requires
        is_run(start, events, steps),
        0 <= i < steps.len(),
        listener_before(start, steps, i).stage == ListenerStage::AwaitAnnouncement,
    ensures
        0 <= k <= i,
        looked_through(start, events, steps, k),
        events[k].now + 2_000_000_000 >= events[i].now,
{
    let before = listener_before(start, steps, i);
    assert(follows(before, events[i], steps[i]));
    lemma_prune_facts(before, events[i], steps[i]);
    if events[i].now > before.last_prune + 2_000_000_000 {
        i
    } else {
        lemma_last_look(start, events, steps, i)
    }
}

/// Those who have left are forgotten, however busy the others keep the network. Where only
/// the listener changes which devices are known, and one was last heard at `heard`, it is
/// no longer known when a round ends more than twelve seconds later.
pub proof fn law_silent_device_leaves(
    start: ListenerView,
    events: Seq<EventView>,
    steps: Seq<StepView>,
    id: u8,
    heard: u64,
    i: int,
)
    requires
        is_run(start, events, steps),
        0 <= i < steps.len(),
        events[0].client.devices == Map::<u8, DeviceView>::empty(),
        forall|m: int|
            0 < m <= i ==> (#[trigger] events[m]).client.devices == steps[m - 1].client.devices,
        forall|m: int|
            0 <= m <= i && (#[trigger] steps[m]).client.devices.contains_key(id)
                ==> steps[m].client.devices[id].last_seen <= heard,
        listener_before(start, steps, i).stage == ListenerStage::AwaitAnnouncement,
        events[i].now > heard + 12_000_000_000,
    ensures
        !steps[i].client.devices.contains_key(id),
{
    let k = lemma_recent_look(start, events, steps, i);
    if all_fresh(steps[k].client, events[k].now) {
        if steps[k].client.devices.contains_key(id) {
            assert(steps[k].client.devices[id].last_seen <= heard);
        }
    } else {
        lemma_scan_knows_nobody(start, events, steps, k, i);
    }
    lemma_stays_away(start, events, steps, id, heard, k, i);
}

/// Until the network is joined nobody is known.
proof fn lemma_scan_knows_nobody(
    start: ListenerView,
    events: Seq<EventView>,
    steps: Seq<StepView>,
    k: int,
    i: int,
)
    requires
        is_run(start, events, steps),
        0 <= k <= i < steps.len(),
        events[0].client.devices == Map::<u8, DeviceView>::empty(),
        forall|m: int|
            0 < m <= i ==> (#[trigger] events[m]).client.devices == steps[m - 1].client.devices,
        is_scanning(listener_before(start, steps, k).stage),
    ensures
        steps[k].client.devices == Map::<u8, DeviceView>::empty(),
    decreases k,
{
    let before = listener_before(start, steps, k);
    assert(follows(before, events[k], steps[k]));
    lemma_prune_facts(before, events[k], steps[k]);
    if k > 0 {
        let earlier = listener_before(start, steps, k - 1);
        assert(follows(earlier, events[k - 1], steps[k - 1]));
        lemma_prune_facts(earlier, events[k - 1], steps[k - 1]);
        lemma_scan_knows_nobody(start, events, steps, k - 1, i);
        assert(events[k].client.devices == steps[k - 1].client.devices);
    }
}

/// Who is not heard does not come back.
proof fn lemma_stays_away(
    start: ListenerView,
    events: Seq<EventView>,
    steps: Seq<StepView>,
    id: u8,
    heard: u64,
    k: int,
    i: int,
)
    requires
        is_run(start, events, steps),
        0 <= k <= i < steps.len(),
        forall|m: int|
            0 < m <= i ==> (#[trigger] events[m]).client.devices == steps[m - 1].client.devices,
        forall|m: int|
            0 <= m <= i && (#[trigger] steps[m]).client.devices.contains_key(id)
                ==> steps[m].client.devices[id].last_seen <= heard,
        events[k].now > heard,
        !steps[k].client.devices.contains_key(id),
    ensures
        !steps[i].client.devices.contains_key(id),
    decreases i - k,
{
    if k < i {
        lemma_stays_away(start, events, steps, id, heard, k, i - 1);
        let before = listener_before(start, steps, i);
        assert(follows(before, events[i], steps[i]));
        lemma_prune_facts(before, events[i], steps[i]);
        assert(events[i].client.devices == steps[i - 1].client.devices);
        assert(events[k].now <= events[i].now);
        if steps[i].client.devices.contains_key(id) {
            assert(steps[i].client.devices[id].last_seen <= heard);
        }
    }
}

} // verus!
