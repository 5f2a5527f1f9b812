use std::collections::HashSet;

use prodjlink_rs::client::ProDjLinkClient;
use prodjlink_rs::listener::{
    bind_failure_message, no_address_message, select_device_id, Listener, ListenerAction,
    ANNOUNCE_INTERVAL, ANNOUNCE_PORT, PRUNE_INTERVAL, SCAN_DURATION, STATUS_INTERVAL, STATUS_PORT,
};
use prodjlink_rs::model::{Datagram, DeviceAddr};
use prodjlink_rs::packet::{build_keep_alive_packet, build_status_packet};
use prodjlink_rs::state::DEVICE_TIMEOUT;

const LOCAL: [u8; 4] = [10, 0, 0, 7];
const OWN: DeviceAddr = DeviceAddr::V4(0x0a00_0007);
const PEER: DeviceAddr = DeviceAddr::V4(0x0a00_0002);

fn keep_alive_of(id: u8) -> Option<Datagram> {
    let data = build_keep_alive_packet(id, "", &[0; 6], &[0; 4], 0);
    Some(Datagram { data, source: PEER })
}

fn status_of(id: u8, source: DeviceAddr) -> Option<Datagram> {
    Some(Datagram { data: build_status_packet(id, "CDJ", 0), source })
}

/// The packet that is sent, which goes to everybody on the network, on its own port.
fn sent(action: ListenerAction) -> Vec<u8> {
    match action {
        ListenerAction::SendKeepAlive(packet) => {
            assert_eq!((packet.ip, packet.port), ([10, 0, 0, 255], 50000));
            packet.data
        }
        ListenerAction::SendStatus(packet) => {
            assert_eq!((packet.ip, packet.port), ([10, 0, 0, 255], 50002));
            packet.data
        }
        other => panic!("{:?}", other),
    }
}

/// A listener that has joined at `now` with nobody else around: the keep-alive packet was
/// just handed out.
fn joined_at(client: &mut ProDjLinkClient, now: u64) -> Listener {
    let mut listener = Listener::new(LOCAL, now - SCAN_DURATION);
    let action = listener.step(client, None, now, true);
    assert!(matches!(action, ListenerAction::SendKeepAlive(_)));
    listener
}

/// A listener that waits at the status port, its packets sent at `now`.
fn waiting_at(client: &mut ProDjLinkClient, now: u64) -> Listener {
    let mut listener = joined_at(client, now);
    assert!(matches!(listener.step(client, None, now, true), ListenerAction::SendStatus(_)));
    assert!(matches!(listener.step(client, None, now, true), ListenerAction::ReceiveStatus));
    listener
}

#[test]
fn highest_free_number_is_taken() {
    let mut used: HashSet<u8> = HashSet::new();
    assert_eq!(select_device_id(&used), 6);
    used.insert(6);
    assert_eq!(select_device_id(&used), 5);
    used.insert(4);
    assert_eq!(select_device_id(&used), 5);
    used.insert(5);
    assert_eq!(select_device_id(&used), 3);
    used.insert(3);
    used.insert(2);
    assert_eq!(select_device_id(&used), 1);
    used.insert(1);
    assert_eq!(select_device_id(&used), 7);
}

#[test]
fn scan_listens_on_both_ports() {
    let mut client = ProDjLinkClient::new();
    let mut listener = Listener::new(LOCAL, 0);
    let action = listener.step(&mut client, None, 0, true);
    assert!(matches!(action, ListenerAction::ReceiveAnnouncement));
    let action = listener.step(&mut client, keep_alive_of(6), 1, true);
    assert!(matches!(action, ListenerAction::ReceiveStatus));
    let action = listener.step(&mut client, status_of(5, PEER), 2, true);
    assert!(matches!(action, ListenerAction::Pause(50)));
    assert!(!client.has_devices());
    let action = listener.step(&mut client, None, SCAN_DURATION - 1, true);
    assert!(matches!(action, ListenerAction::ReceiveAnnouncement));
    listener.step(&mut client, None, SCAN_DURATION, true);
    listener.step(&mut client, None, SCAN_DURATION, true);
    let packet = sent(listener.step(&mut client, None, SCAN_DURATION, true));
    assert_eq!(
        packet,
        build_keep_alive_packet(4, "REACT", &[0x02, 0xc0, 0x11, 0, 0, 7], &LOCAL, 0)
    );
    assert_eq!(client.our_device_id(), 4);
    assert_eq!(SCAN_DURATION, 2_000_000_000);
}

#[test]
fn crowded_networks_leave_seven() {
    let mut client = ProDjLinkClient::new();
    let mut listener = Listener::new(LOCAL, 0);
    for id in 1u8..=6 {
        listener.step(&mut client, None, 0, true);
        listener.step(&mut client, keep_alive_of(id), 0, true);
        listener.step(&mut client, None, 0, true);
    }
    let packet = sent(listener.step(&mut client, None, SCAN_DURATION, true));
    assert_eq!(packet[0x24], 7);
    assert_eq!(client.our_device_id(), 7);
}

#[test]
fn joining_announces_and_reports_at_once() {
    let mut client = ProDjLinkClient::new();
    let now = 5_000_000_000;
    let mut listener = joined_at(&mut client, now);
    let status = sent(listener.step(&mut client, None, now, true));
    assert_eq!(status, build_status_packet(6, "REACT", 0));
    let action = listener.step(&mut client, None, now, true);
    assert!(matches!(action, ListenerAction::ReceiveStatus));
    let action = listener.step(&mut client, None, now, true);
    assert!(matches!(action, ListenerAction::ReceiveAnnouncement));
    let action = listener.step(&mut client, None, now, true);
    assert!(matches!(action, ListenerAction::ReceiveStatus));
}

#[test]
fn status_goes_out_every_200_milliseconds() {
    let mut client = ProDjLinkClient::new();
    let now = 5_000_000_000;
    let mut listener = waiting_at(&mut client, now);
    listener.step(&mut client, None, now, true);
    let action = listener.step(&mut client, None, now + STATUS_INTERVAL - 1, true);
    assert!(matches!(action, ListenerAction::ReceiveStatus));
    listener.step(&mut client, None, now + STATUS_INTERVAL, true);
    let status = sent(listener.step(&mut client, None, now + STATUS_INTERVAL, true));
    assert_eq!(status, build_status_packet(6, "REACT", 1));
    assert_eq!(STATUS_INTERVAL, 200_000_000);
}

#[test]
fn keep_alive_goes_out_every_1500_milliseconds() {
    let mut client = ProDjLinkClient::new();
    let now = 5_000_000_000;
    let mut listener = waiting_at(&mut client, now);
    listener.step(&mut client, status_of(2, PEER), now, true);
    let action = listener.step(&mut client, None, now + ANNOUNCE_INTERVAL - 1, true);
    assert!(matches!(action, ListenerAction::SendStatus(_)));
    listener.step(&mut client, None, now + ANNOUNCE_INTERVAL, true);
    listener.step(&mut client, None, now + ANNOUNCE_INTERVAL, true);
    let packet = sent(listener.step(&mut client, None, now + ANNOUNCE_INTERVAL, true));
    assert_eq!(
        packet,
        build_keep_alive_packet(6, "REACT", &[0x02, 0xc0, 0x11, 0, 0, 7], &LOCAL, 1)
    );
    assert_eq!(ANNOUNCE_INTERVAL, 1_500_000_000);
}

#[test]
fn packet_counter_wraps() {
    let mut client = ProDjLinkClient::new();
    let mut now = 5_000_000_000;
    let mut listener = waiting_at(&mut client, now);
    let mut counters: Vec<u8> = Vec::new();
    while counters.len() < 300 {
        now += STATUS_INTERVAL;
        listener.step(&mut client, None, now, true);
        let mut action = listener.step(&mut client, None, now, true);
        if matches!(action, ListenerAction::SendKeepAlive(_)) {
            action = listener.step(&mut client, None, now, true);
        }
        counters.push(sent(action)[0xc8]);
        listener.step(&mut client, None, now, true);
    }
    for (i, counter) in counters.iter().enumerate() {
        assert_eq!(*counter as usize, (i + 1) % 256);
    }
}

#[test]
fn packets_reach_the_client() {
    let mut client = ProDjLinkClient::new();
    let now = 5_000_000_000;
    let mut listener = waiting_at(&mut client, now);
    listener.step(&mut client, status_of(2, PEER), now, true);
    assert_eq!(client.get_devices(), vec![(2, "CDJ".to_string(), false)]);
    listener.step(&mut client, keep_alive_of(3), now, true);
    assert_eq!(client.peer_count(), 2);
}

#[test]
fn own_packets_are_ignored() {
    let mut client = ProDjLinkClient::new();
    let now = 5_000_000_000;
    let mut listener = waiting_at(&mut client, now);
    let action = listener.step(&mut client, status_of(2, OWN), now, true);
    assert!(matches!(action, ListenerAction::ReceiveStatus));
    assert!(!client.has_devices());
}

#[test]
fn own_number_is_never_a_device() {
    let mut client = ProDjLinkClient::new();
    let now = 5_000_000_000;
    let mut listener = waiting_at(&mut client, now);
    listener.step(&mut client, status_of(6, PEER), now, true);
    listener.step(&mut client, keep_alive_of(6), now, true);
    assert!(!client.has_devices());
}

#[test]
fn packets_of_any_length_are_taken_in() {
    let whole = build_status_packet(2, "CDJ", 0);
    for length in 0..=whole.len() {
        let mut client = ProDjLinkClient::new();
        let now = 5_000_000_000;
        let mut listener = waiting_at(&mut client, now);
        let packet = Datagram { data: whole[..length].to_vec(), source: PEER };
        let action = listener.step(&mut client, Some(packet), now, true);
        assert!(matches!(action, ListenerAction::ReceiveAnnouncement));
        assert_eq!(client.has_devices(), length >= 0x7c);
    }
}

#[test]
fn a_run_keeps_numbers_and_distances() {
    let mut client = ProDjLinkClient::new();
    let start = 7_000_000_000;
    let mut listener = Listener::new(LOCAL, start);
    let mut now = start;
    let mut heard = true;
    let mut keep_alives: Vec<u64> = Vec::new();
    let mut statuses: Vec<u64> = Vec::new();
    let mut received: Option<Datagram> = None;
    for _ in 0..20_000 {
        now += 3_000_000;
        match listener.step(&mut client, received.take(), now, true) {
            ListenerAction::SendKeepAlive(packet) => {
                let peers = client.peer_count();
                let mac = [0x02, 0xc0, 0x11, 0, 0, 7];
                let data = build_keep_alive_packet(5, "REACT", &mac, &LOCAL, peers);
                assert_eq!(packet.data, data);
                assert_eq!((packet.ip, packet.port), ([10, 0, 0, 255], ANNOUNCE_PORT));
                keep_alives.push(now);
            }
            ListenerAction::SendStatus(packet) => {
                let data = build_status_packet(5, "REACT", (statuses.len() % 256) as u8);
                assert_eq!(packet.data, data);
                assert_eq!((packet.ip, packet.port), ([10, 0, 0, 255], STATUS_PORT));
                statuses.push(now);
            }
            ListenerAction::ReceiveStatus => {
                heard = !heard;
                received = if heard { status_of(6, PEER) } else { status_of(3, OWN) };
            }
            ListenerAction::ReceiveAnnouncement => received = keep_alive_of(6),
            ListenerAction::Pause(millis) => now += millis * 1_000_000,
            ListenerAction::Stop => panic!(),
        }
    }
    assert!(keep_alives[0] >= start + SCAN_DURATION);
    assert!(statuses[0] >= start + SCAN_DURATION);
    assert!(keep_alives.len() > 30);
    assert!(statuses.len() > 256);
    for pair in keep_alives.windows(2) {
        assert!(pair[1] - pair[0] >= 1_500_000_000);
    }
    for pair in statuses.windows(2) {
        assert!(pair[1] - pair[0] >= 200_000_000);
    }
    assert_eq!(client.our_device_id(), 5);
    assert_eq!(client.get_devices().len(), 1);
}

#[test]
fn silent_devices_leave_at_the_end_of_a_round() {
    let mut client = ProDjLinkClient::new();
    let now = 5_000_000_000;
    let mut listener = waiting_at(&mut client, now);
    listener.step(&mut client, status_of(2, PEER), now, true);
    let late = now + DEVICE_TIMEOUT;
    listener.step(&mut client, None, late, true);
    assert!(!client.has_devices());
}

#[test]
fn pruning_waits_for_more_than_two_seconds() {
    let mut client = ProDjLinkClient::new();
    let now = 50_000_000_000;
    client.parse_cdj_status(&build_status_packet(2, "CDJ", 0), PEER, 0);
    let mut listener = waiting_at(&mut client, now);
    listener.step(&mut client, None, now, true);
    listener.step(&mut client, None, now + PRUNE_INTERVAL, true);
    assert!(client.has_devices());
    listener.step(&mut client, None, now + PRUNE_INTERVAL, true);
    listener.step(&mut client, None, now + PRUNE_INTERVAL, true);
    listener.step(&mut client, None, now + PRUNE_INTERVAL, true);
    listener.step(&mut client, None, now + PRUNE_INTERVAL + 1, true);
    assert!(!client.has_devices());
    assert_eq!(PRUNE_INTERVAL, 2_000_000_000);
}

#[test]
fn errors_are_worded() {
    let mut client = ProDjLinkClient::new();
    client.set_last_error(no_address_message());
    assert_eq!(client.get_status_message(), "CDJ: Could not determine local IP address");
    client.set_last_error(bind_failure_message("Address already in use (os error 98)"));
    assert_eq!(
        client.get_status_message(),
        "CDJ: Failed to bind port 50002: Address already in use (os error 98) (rekordbox running?)"
    );
}

#[test]
fn stopping() {
    let mut client = ProDjLinkClient::new();
    let mut listener = Listener::new(LOCAL, 0);
    assert!(matches!(listener.step(&mut client, None, 1, false), ListenerAction::Stop));
    assert!(matches!(listener.step(&mut client, None, 2, true), ListenerAction::Stop));
    let now = 5_000_000_000;
    let mut listener = waiting_at(&mut client, now);
    let action = listener.step(&mut client, None, now, false);
    assert!(matches!(action, ListenerAction::ReceiveAnnouncement));
    let action = listener.step(&mut client, keep_alive_of(3), now, false);
    assert!(matches!(action, ListenerAction::Stop));
    assert_eq!(client.peer_count(), 1);
    let action = listener.step(&mut client, status_of(4, PEER), now, true);
    assert!(matches!(action, ListenerAction::Stop));
    assert_eq!(client.peer_count(), 1);
}
