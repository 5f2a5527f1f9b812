use prodjlink_rs::client::ProDjLinkClient;
use prodjlink_rs::dbserver::{
    build_greeting, build_metadata_request, build_render_request, build_setup_request,
};
use prodjlink_rs::fetch::{
    time_since, FetchAction, FetchReply, MetadataFetch, RenderCollector, RENDER_DURATION,
    RENDER_SIZE,
};
use prodjlink_rs::model::{Datagram, DeviceAddr, FetchRequest, MetadataKey, TrackMetadata};
use prodjlink_rs::packet::PRODJLINK_HEADER;

const KEY: MetadataKey = MetadataKey { device_id: 2, slot: 3, track_id: 4711 };

fn start_fetch() -> MetadataFetch {
    MetadataFetch::new(5, FetchRequest { device_ip: DeviceAddr::V4(0x0a000002), key: KEY }, 0)
}

fn written(action: FetchAction) -> Vec<u8> {
    match action {
        FetchAction::Write(data) => data,
        other => panic!("{:?}", other),
    }
}

fn found(action: FetchAction) -> Option<TrackMetadata> {
    match action {
        FetchAction::Finish(metadata) => metadata,
        other => panic!("{:?}", other),
    }
}

fn row_text(text: &str) -> Vec<u8> {
    let units: Vec<u16> = text.encode_utf16().collect();
    let mut field = vec![0x26];
    field.extend_from_slice(&(units.len() as u32).to_be_bytes());
    for u in units {
        field.extend_from_slice(&u.to_be_bytes());
    }
    field
}

fn menu_answer(kind: u16, txid: u32, size: u32) -> Vec<u8> {
    let mut reply = vec![0x11, 0x87, 0x23, 0x49, 0xae, 0x11];
    reply.extend_from_slice(&txid.to_be_bytes());
    reply.push(0x10);
    reply.extend_from_slice(&kind.to_be_bytes());
    reply.extend_from_slice(&[0x0f, 2, 0x14, 0, 0, 0, 2, 6, 6, 0x11, 0, 0, 0x20, 0x02, 0x11]);
    reply.extend_from_slice(&size.to_be_bytes());
    reply
}

/// A conversation that has come to reading rows at time 1000.
fn at_rows() -> MetadataFetch {
    let mut fetch = start_fetch();
    fetch.step(FetchReply::Done, 0);
    fetch.step(FetchReply::Done, 0);
    fetch.step(FetchReply::Data(vec![0x11, 0, 0, 0, 1]), 0);
    fetch.step(FetchReply::Done, 0);
    fetch.step(FetchReply::Data(vec![1; 42]), 0);
    fetch.step(FetchReply::Done, 0);
    fetch.step(FetchReply::Done, 0);
    fetch.step(FetchReply::Data(menu_answer(0x4000, 2, 11)), 0);
    fetch.step(FetchReply::Done, 0);
    let action = fetch.step(FetchReply::Data(vec![0; 20]), 1000);
    assert!(matches!(action, FetchAction::ReadRows));
    fetch
}

#[test]
fn conversation_in_order() {
    let mut fetch = start_fetch();
    assert_eq!(written(fetch.step(FetchReply::Done, 0)), build_greeting());
    assert!(matches!(fetch.step(FetchReply::Done, 0), FetchAction::Read(16)));
    let setup = written(fetch.step(FetchReply::Data(vec![0x11, 0, 0, 0, 1]), 0));
    assert_eq!(setup, build_setup_request(5, 2));
    assert!(matches!(fetch.step(FetchReply::Done, 0), FetchAction::Read(64)));
    assert!(matches!(fetch.step(FetchReply::Data(vec![7]), 0), FetchAction::Pause(150)));
    let request = written(fetch.step(FetchReply::Done, 0));
    assert_eq!(request, build_metadata_request(5, 2, 3, 4711));
    assert!(matches!(fetch.step(FetchReply::Done, 0), FetchAction::Read(256)));
    let render = written(fetch.step(FetchReply::Data(menu_answer(0x4000, 2, 11)), 0));
    assert_eq!(render, build_render_request(5, 2, 3, 4711, 11, 11, 3));
    assert!(matches!(fetch.step(FetchReply::Done, 0), FetchAction::Read(4096)));
    assert!(matches!(fetch.step(FetchReply::TimedOut, 0), FetchAction::ReadRows));
    let mut rows = row_text("Title\0");
    rows.extend(row_text("Artist\0"));
    assert!(matches!(fetch.step(FetchReply::Data(rows), 9), FetchAction::ReadRows));
    let metadata = found(fetch.step(FetchReply::Data(vec![0x42, 0x01, 0x0f]), 10)).unwrap();
    assert_eq!(metadata.title, "Title");
    assert_eq!(metadata.artist, "Artist");
    assert_eq!(metadata.fetched_at, 10);
    assert!(found(fetch.step(FetchReply::Done, 11)).is_none());
}

#[test]
fn transaction_id_wraps() {
    let mut fetch = start_fetch();
    fetch.step(FetchReply::Done, 0);
    fetch.step(FetchReply::Done, 0);
    fetch.step(FetchReply::Data(vec![1]), 0);
    fetch.step(FetchReply::Done, 0);
    fetch.step(FetchReply::Data(vec![1]), 0);
    fetch.step(FetchReply::Done, 0);
    fetch.step(FetchReply::Done, 0);
    let render = written(fetch.step(FetchReply::Data(menu_answer(0x4000, u32::MAX, 200)), 0));
    assert_eq!(render, build_render_request(5, 2, 3, 4711, 200, 200, 0));
}

#[test]
fn failed_writes_end_with_nothing() {
    for done in [0usize, 2, 5, 7] {
        let mut fetch = start_fetch();
        let replies: Vec<fn() -> FetchReply> = vec![
            || FetchReply::Done,
            || FetchReply::Data(vec![1]),
            || FetchReply::Done,
            || FetchReply::Data(vec![1]),
            || FetchReply::Done,
            || FetchReply::Done,
            || FetchReply::Data(menu_answer(0x4000, 2, 3)),
        ];
        let mut action = fetch.step(FetchReply::Done, 0);
        for reply in replies.iter().take(done) {
            action = fetch.step(reply(), 0);
        }
        assert!(matches!(action, FetchAction::Write(_)));
        assert!(found(fetch.step(FetchReply::Failed, 0)).is_none());
        assert!(found(fetch.step(FetchReply::Done, 0)).is_none());
    }
}

#[test]
fn silent_players_end_with_nothing() {
    let mut fetch = start_fetch();
    fetch.step(FetchReply::Done, 0);
    fetch.step(FetchReply::Done, 0);
    assert!(found(fetch.step(FetchReply::Data(vec![]), 0)).is_none());
    let mut fetch = start_fetch();
    fetch.step(FetchReply::Done, 0);
    fetch.step(FetchReply::Done, 0);
    assert!(found(fetch.step(FetchReply::TimedOut, 0)).is_none());
    let mut fetch = start_fetch();
    fetch.step(FetchReply::Done, 0);
    fetch.step(FetchReply::Done, 0);
    fetch.step(FetchReply::Data(vec![1]), 0);
    fetch.step(FetchReply::Done, 0);
    assert!(found(fetch.step(FetchReply::Data(vec![]), 0)).is_none());
}

#[test]
fn refused_requests_end_with_nothing() {
    for answer in [
        FetchReply::Data(menu_answer(0x4003, 2, 11)),
        FetchReply::Data(vec![0; 14]),
        FetchReply::Data(vec![]),
        FetchReply::TimedOut,
        FetchReply::Failed,
    ] {
        let mut fetch = start_fetch();
        fetch.step(FetchReply::Done, 0);
        fetch.step(FetchReply::Done, 0);
        fetch.step(FetchReply::Data(vec![1]), 0);
        fetch.step(FetchReply::Done, 0);
        fetch.step(FetchReply::Data(vec![1]), 0);
        fetch.step(FetchReply::Done, 0);
        assert!(matches!(fetch.step(FetchReply::Done, 0), FetchAction::Read(256)));
        assert!(found(fetch.step(answer, 0)).is_none());
    }
}

#[test]
fn end_of_stream_ends_reading() {
    let mut fetch = at_rows();
    fetch.step(FetchReply::Data(row_text("Title\0")), 1001);
    let metadata = found(fetch.step(FetchReply::Data(vec![]), 1002)).unwrap();
    assert_eq!(metadata.title, "Title");
    assert_eq!(metadata.artist, "Unknown Artist");
}

#[test]
fn errors_end_reading() {
    let mut fetch = at_rows();
    fetch.step(FetchReply::Data(row_text("Title\0")), 1001);
    assert_eq!(found(fetch.step(FetchReply::Failed, 1002)).unwrap().title, "Title");
    let mut fetch = at_rows();
    assert!(matches!(fetch.step(FetchReply::Failed, 1002), FetchAction::Pause(300)));
}

#[test]
fn third_timeout_ends_reading() {
    let mut fetch = at_rows();
    fetch.step(FetchReply::Data(row_text("Title\0")), 1001);
    assert!(matches!(fetch.step(FetchReply::TimedOut, 1002), FetchAction::ReadRows));
    assert!(matches!(fetch.step(FetchReply::TimedOut, 1003), FetchAction::ReadRows));
    assert_eq!(found(fetch.step(FetchReply::TimedOut, 1004)).unwrap().title, "Title");
}

#[test]
fn data_ends_a_row_of_timeouts() {
    let mut fetch = at_rows();
    fetch.step(FetchReply::Data(row_text("Title\0")), 1001);
    fetch.step(FetchReply::TimedOut, 1002);
    fetch.step(FetchReply::TimedOut, 1003);
    fetch.step(FetchReply::Data(row_text("Artist\0")), 1004);
    assert!(matches!(fetch.step(FetchReply::TimedOut, 1005), FetchAction::ReadRows));
    assert!(matches!(fetch.step(FetchReply::TimedOut, 1006), FetchAction::ReadRows));
    assert_eq!(found(fetch.step(FetchReply::TimedOut, 1007)).unwrap().artist, "Artist");
}

#[test]
fn timeouts_without_data_go_on_until_time_is_up() {
    let mut fetch = at_rows();
    for i in 0..20 {
        assert!(matches!(fetch.step(FetchReply::TimedOut, 1001 + i), FetchAction::ReadRows));
    }
    let action = fetch.step(FetchReply::TimedOut, 1000 + RENDER_DURATION - 1);
    assert!(matches!(action, FetchAction::ReadRows));
    let action = fetch.step(FetchReply::TimedOut, 1000 + RENDER_DURATION);
    assert!(matches!(action, FetchAction::Pause(300)));
}

#[test]
fn size_ends_reading() {
    let mut fetch = at_rows();
    let mut data = row_text("Title\0");
    data.resize(RENDER_SIZE - 1, 0);
    assert!(matches!(fetch.step(FetchReply::Data(data), 1001), FetchAction::ReadRows));
    assert_eq!(found(fetch.step(FetchReply::Data(vec![0]), 1002)).unwrap().title, "Title");
}

#[test]
fn menu_packets_are_the_fallback() {
    let mut fetch = at_rows();
    assert!(matches!(fetch.step(FetchReply::Data(vec![]), 1001), FetchAction::Pause(300)));
    assert!(matches!(fetch.step(FetchReply::Done, 1002), FetchAction::TakeMenuPackets));
    let packet = vec![0x26, 0, 0, 0, 4, 0, 0x41, 0, 0x42];
    let metadata = found(fetch.step(FetchReply::Packets(vec![packet]), 1003)).unwrap();
    assert_eq!(metadata.title, "AB");
    assert_eq!(metadata.artist, "Unknown Artist");
    assert_eq!(metadata.fetched_at, 1003);
}

/// A menu packet of device `id` at `ip` with a text of two characters.
fn menu_packet(id: u8, ip: u32, text: [u8; 2]) -> Datagram {
    let mut data = vec![0u8; 0x28];
    data[..10].copy_from_slice(&PRODJLINK_HEADER);
    data[0x0a] = 0x40;
    data[0x21] = id;
    data.extend_from_slice(&[0x26, 0, 0, 0, 4, 0, text[0], 0, text[1], 0, 0]);
    Datagram { data, source: DeviceAddr::V4(ip) }
}

#[test]
fn only_the_player_asked_answers() {
    let mut client = ProDjLinkClient::new();
    client.receive_status_packet(&menu_packet(3, 0x0a000003, *b"No"), 1);
    client.receive_status_packet(&menu_packet(2, 0x0a000009, *b"Ti"), 2);
    client.receive_status_packet(&menu_packet(4, 0x0a000004, *b"No"), 3);
    client.receive_status_packet(&menu_packet(33, 0x0a000002, *b"Ar"), 4);
    client.receive_status_packet(&menu_packet(2, 0x0a000002, *b"Al"), 5);
    let mut fetch = at_rows();
    fetch.step(FetchReply::Data(vec![]), 1001);
    assert!(matches!(fetch.step(FetchReply::Done, 1002), FetchAction::TakeMenuPackets));
    let reply = fetch.take_packets(&mut client);
    let metadata = found(fetch.step(reply, 1003)).unwrap();
    assert_eq!((metadata.title.as_str(), metadata.artist.as_str()), ("Ti", "Ar"));
    assert!(matches!(fetch.take_packets(&mut client), FetchReply::Packets(p) if p.is_empty()));
}

#[test]
fn conversations_are_held_under_our_number() {
    let mut client = ProDjLinkClient::new();
    client.set_our_device_id(3);
    let request = FetchRequest { device_ip: DeviceAddr::V4(1), key: KEY };
    let mut fetch = MetadataFetch::open(&client, request, 0);
    fetch.step(FetchReply::Done, 0);
    fetch.step(FetchReply::Done, 0);
    let setup = written(fetch.step(FetchReply::Data(vec![1]), 0));
    assert_eq!(setup, build_setup_request(3, 2));
}

#[test]
fn no_menu_packets_no_metadata() {
    let mut fetch = at_rows();
    fetch.step(FetchReply::Data(vec![]), 1001);
    fetch.step(FetchReply::Done, 1002);
    assert!(found(fetch.step(FetchReply::Packets(vec![]), 1003)).is_none());
}

#[test]
fn footer_needs_more_than_13_bytes() {
    let mut collector = RenderCollector::new(0);
    let mut data = vec![0; 10];
    data.extend_from_slice(&[0x42, 0x01, 0x00]);
    collector.add_data(&data);
    assert!(collector.wants_more(0));
    collector.add_data(&[0]);
    assert!(!collector.wants_more(0));
}

#[test]
fn footer_in_the_last_two_bytes_is_not_seen_yet() {
    let mut collector = RenderCollector::new(0);
    let mut data = vec![0; 20];
    data.extend_from_slice(&[0x42, 0x01]);
    collector.add_data(&data);
    assert!(collector.wants_more(0));
    collector.add_data(&[0]);
    assert!(!collector.wants_more(0));
}

#[test]
fn pieces_are_put_together() {
    let mut rows = row_text("Title\0");
    rows.extend(row_text("Artist\0"));
    let mut collector = RenderCollector::new(0);
    for byte in rows.iter() {
        collector.add_data(&[*byte]);
    }
    let metadata = collector.parse_render_response(3).unwrap();
    assert_eq!((metadata.title, metadata.artist), ("Title".to_string(), "Artist".to_string()));
    assert!(!collector.has_given_up());
    collector.add_timeout();
    collector.add_timeout();
    assert!(!collector.has_given_up());
    collector.add_timeout();
    assert!(collector.has_given_up());
}

#[test]
fn division_into_reads_does_not_matter() {
    let mut rows = vec![0x11, 0x87, 0x23, 0x49, 0xae];
    rows.extend(row_text("Title\0"));
    rows.extend(row_text("Artist\0"));
    for size in 1..=rows.len() {
        for timeouts in 0..=2 {
            let mut fetch = at_rows();
            let mut now = 1000;
            for piece in rows.chunks(size) {
                for _ in 0..timeouts {
                    now += 1;
                    let action = fetch.step(FetchReply::TimedOut, now);
                    assert!(matches!(action, FetchAction::ReadRows));
                }
                now += 1;
                let action = fetch.step(FetchReply::Data(piece.to_vec()), now);
                assert!(matches!(action, FetchAction::ReadRows));
            }
            let metadata = found(fetch.step(FetchReply::Data(vec![]), now)).unwrap();
            assert_eq!(metadata.title, "Title");
            assert_eq!(metadata.artist, "Artist");
        }
    }
}

#[test]
fn conversation_takes_its_time() {
    let mut fetch = start_fetch();
    let second = 1_000_000_000;
    fetch.step(FetchReply::Done, second);
    fetch.step(FetchReply::Done, 2 * second);
    fetch.step(FetchReply::Data(vec![1]), 3 * second);
    fetch.step(FetchReply::Done, 4 * second);
    fetch.step(FetchReply::Data(vec![1]), 5 * second);
    fetch.step(FetchReply::Done, 6 * second);
    fetch.step(FetchReply::Done, 7 * second);
    fetch.step(FetchReply::Data(menu_answer(0x4000, 2, 3)), 8 * second);
    fetch.step(FetchReply::Done, 9 * second);
    fetch.step(FetchReply::Data(vec![1]), 14 * second);
    let action = fetch.step(FetchReply::TimedOut, 14 * second + RENDER_DURATION - 1);
    assert!(matches!(action, FetchAction::ReadRows));
    let action = fetch.step(FetchReply::TimedOut, 14 * second + RENDER_DURATION);
    assert!(matches!(action, FetchAction::Pause(300)));
}

#[test]
fn elapsed_time_is_never_negative() {
    assert_eq!(time_since(5, 9), 4);
    assert_eq!(time_since(9, 5), 0);
    assert_eq!(time_since(0, u64::MAX), u64::MAX);
}
