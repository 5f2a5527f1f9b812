use prodjlink_rs::cache::{MetadataCache, PendingFetches, CACHE_SIZE};
use prodjlink_rs::client::{ProDjLinkClient, ProDjLinkSource};
use prodjlink_rs::model::{
    Datagram, DeviceAddr, FetchRequest, MetadataKey, TrackInfo, TrackMetadata,
};
use prodjlink_rs::packet::{build_keep_alive_packet, build_status_packet, PRODJLINK_HEADER};
use prodjlink_rs::state::{DEBOUNCE_DELAY, DEVICE_TIMEOUT, HISTORY_SIZE};

const PLAYING: u8 = 0x40;
const MASTER: u8 = 0x20;
const ON_AIR: u8 = 0x08;

const A: DeviceAddr = DeviceAddr::V4(0x0a00_0001);
const B: DeviceAddr = DeviceAddr::V4(0x0a00_0002);
const C: DeviceAddr = DeviceAddr::V6(0xfe80_0000_0000_0000_0000_0000_0000_0003);

fn deck_packet(id: u8, flags: u8, track_id: u32) -> Vec<u8> {
    let mut packet = build_status_packet(id, "CDJ-3000", 0);
    packet[0x28] = id;
    packet[0x29] = 3;
    packet[0x2c..0x30].copy_from_slice(&track_id.to_be_bytes());
    packet[0x89] = flags;
    packet[0x92..0x94].copy_from_slice(&12850u16.to_be_bytes());
    packet
}

fn alive_packet(id: u8, name: &[u8]) -> Vec<u8> {
    let mut packet = build_keep_alive_packet(id, "", &[0; 6], &[0; 4], 0);
    packet[0x0c..0x0c + name.len()].copy_from_slice(name);
    packet
}

fn mixer_packet(mask: u8) -> Vec<u8> {
    let mut packet = vec![0u8; 0x28];
    packet[..10].copy_from_slice(&PRODJLINK_HEADER);
    packet[0x0a] = 0x40;
    packet[0x21] = 33;
    packet[0x27] = mask;
    packet
}

fn from(data: Vec<u8>, source: DeviceAddr) -> Datagram {
    Datagram { data, source }
}

fn key_of(id: u8, track_id: u32) -> MetadataKey {
    MetadataKey { device_id: id, slot: 3, track_id }
}

fn song(title: &str, artist: &str, fetched_at: u64) -> TrackMetadata {
    TrackMetadata {
        title: title.to_string(),
        artist: artist.to_string(),
        album: None,
        duration: None,
        fetched_at,
    }
}

#[test]
fn new_client_knows_nothing() {
    let mut client = ProDjLinkClient::new();
    assert_eq!(client.name(), "Pioneer CDJ");
    assert_eq!(client.our_device_id(), 6);
    assert_eq!(client.peer_count(), 0);
    assert!(!client.is_available());
    assert!(!client.has_devices());
    assert!(client.get_devices().is_empty());
    assert!(client.get_track_history().is_empty());
    assert_eq!(client.get_status_message(), "CDJ: Scanning network...");
    let (track, request) = client.current_track(0);
    assert!(track.is_none() && request.is_none());
    let (infos, requests) = client.cdj_devices(0);
    assert_eq!(infos.len(), 1);
    assert_eq!(infos[0].name, "REACT (ID 6)");
    assert_eq!(infos[0].ip, DeviceAddr::V4(0x7f00_0001));
    assert!(requests.is_empty());
}

#[test]
fn default_client_is_a_new_one() {
    let client: ProDjLinkSource = ProDjLinkClient::default();
    assert_eq!(client.our_device_id(), 6);
    assert!(!client.is_available());
}

#[test]
fn default_track_info_is_empty() {
    let info = TrackInfo::default();
    assert_eq!(info.title, "");
    assert_eq!(info.artist, "");
    assert_eq!(info.source, "");
    assert!(!info.is_playing);
    assert!(info.album.is_none() && info.duration.is_none() && info.position.is_none());
    assert!(info.bpm.is_none() && info.deck.is_none() && info.artwork.is_none());
    let mut other = info.clone();
    other.artwork = Some(vec![1, 2]);
    assert_eq!(other.clone().artwork, Some(vec![1, 2]));
}

#[test]
fn status_is_shown() {
    let mut client = ProDjLinkClient::new();
    client.parse_cdj_status(&deck_packet(2, PLAYING | MASTER | ON_AIR, 42), B, 5);
    assert!(client.is_available());
    assert_eq!(client.get_devices(), vec![(2, "CDJ-3000".to_string(), true)]);
    let (infos, _) = client.get_device_info(5);
    assert_eq!(infos.len(), 2);
    let deck = &infos[0];
    assert_eq!(deck.device_id, 2);
    assert_eq!(deck.name, "CDJ-3000");
    assert_eq!(deck.ip, B);
    assert!(deck.track_loaded && deck.is_playing && deck.is_master && deck.is_on_air);
    assert!(!deck.is_looping);
    assert_eq!(deck.bpm, Some(12850));
    assert_eq!(deck.track_title, None);
    assert_eq!(deck.track_artist, None);
    assert_eq!(infos[1].device_id, 6);
    assert!(!infos[1].track_loaded && infos[1].bpm.is_none());
}

#[test]
fn shown_by_number() {
    let mut client = ProDjLinkClient::new();
    client.set_our_device_id(4);
    for id in [6u8, 1, 5, 2] {
        client.parse_cdj_status(&deck_packet(id, 0, 0), A, 1);
    }
    let (infos, _) = client.get_device_info(1);
    let ids: Vec<u8> = infos.iter().map(|i| i.device_id).collect();
    assert_eq!(ids, vec![1, 2, 4, 5, 6]);
    assert_eq!(infos[2].name, "REACT (ID 4)");
    let listed: Vec<u8> = client.get_devices().iter().map(|d| d.0).collect();
    assert_eq!(listed, vec![1, 2, 5, 6]);
    assert_eq!(client.peer_count(), 4);
}

#[test]
fn seven_is_shown_last() {
    let mut client = ProDjLinkClient::new();
    client.set_our_device_id(7);
    client.parse_cdj_status(&deck_packet(6, 0, 0), A, 1);
    let (infos, _) = client.get_device_info(1);
    assert_eq!(infos[1].name, "REACT (ID 7)");
    assert_eq!(infos[1].device_id, 7);
}

#[test]
fn our_own_number_is_ignored() {
    let mut client = ProDjLinkClient::new();
    client.parse_cdj_status(&deck_packet(6, MASTER, 1), A, 1);
    client.receive_announcement(&from(alive_packet(6, b"X"), A), 1);
    assert!(!client.has_devices());
    assert!(client.get_track_history().is_empty());
}

#[test]
fn other_numbers_and_short_packets_are_ignored() {
    let mut client = ProDjLinkClient::new();
    for id in [0u8, 7, 8, 33, 255] {
        client.parse_cdj_status(&deck_packet(id, MASTER, 1), A, 1);
        client.receive_announcement(&from(alive_packet(id, b"X"), A), 1);
    }
    client.parse_cdj_status(&deck_packet(2, MASTER, 1)[..0x7b], A, 1);
    client.parse_cdj_status(&[], A, 1);
    assert!(!client.has_devices());
}

#[test]
fn packets_without_flags_count() {
    let packet = deck_packet(2, PLAYING | MASTER | ON_AIR, 7);
    for length in [0x7c, 0x80, 0x89] {
        let mut client = ProDjLinkClient::new();
        client.parse_cdj_status(&packet[..length], A, 1);
        let (infos, _) = client.get_device_info(1);
        assert_eq!(infos[0].device_id, 2);
        assert_eq!(infos[0].name, "CDJ-3000");
        assert!(infos[0].track_loaded);
        assert!(!infos[0].is_playing && !infos[0].is_master && !infos[0].is_on_air);
        assert_eq!(infos[0].bpm, None);
        assert_eq!(client.get_track_history()[0].track_id, 7);
    }
}

#[test]
fn packets_without_tempo_count() {
    let mut client = ProDjLinkClient::new();
    client.parse_cdj_status(&deck_packet(2, PLAYING, 7)[..0x8a], A, 1);
    let (infos, _) = client.get_device_info(1);
    assert!(infos[0].is_playing);
    assert_eq!(infos[0].bpm, None);
}

#[test]
fn no_packet_stops_the_client() {
    let mut client = ProDjLinkClient::new();
    let mut now = 0;
    for kind in [0x06u8, 0x0a, 0x40, 0xff] {
        for length in 0..=300usize {
            for fill in [0u8, 1, 2, 0x26, 0x80, 0xff] {
                let mut data = vec![fill; length];
                for (i, byte) in PRODJLINK_HEADER.iter().enumerate() {
                    if i < length {
                        data[i] = *byte;
                    }
                }
                if length > 10 {
                    data[10] = kind;
                }
                now += 1;
                client.parse_cdj_status(&data, A, now);
                client.parse_mixer_on_air(&data);
                client.receive_announcement(&from(data.clone(), B), now);
                client.receive_status_packet(&from(data, C), now);
            }
        }
    }
    for record in client.get_track_history() {
        assert!((1..=6).contains(&record.deck));
        assert!(record.track_id != 0);
    }
    let listed: Vec<u8> = client.get_devices().iter().map(|d| d.0).collect();
    assert_eq!(listed, vec![1, 2]);
}

#[test]
fn track_changes_are_recorded() {
    let mut client = ProDjLinkClient::new();
    client.parse_cdj_status(&deck_packet(2, MASTER, 10), A, 100);
    client.parse_cdj_status(&deck_packet(2, MASTER, 10), A, 200);
    client.parse_cdj_status(&deck_packet(2, 0, 0), A, 300);
    client.parse_cdj_status(&deck_packet(2, 0, 11), A, 400);
    client.parse_cdj_status(&deck_packet(3, 0, 0), A, 500);
    let history = client.get_track_history();
    assert_eq!(history.len(), 2);
    assert_eq!(history[0].timestamp, 100);
    assert_eq!(history[0].deck, 2);
    assert_eq!(history[0].track_id, 10);
    assert_eq!(history[0].source_device, 2);
    assert_eq!(history[0].slot, 3);
    assert_eq!(history[0].bpm, Some(12850));
    assert!(history[0].is_master);
    assert!(history[0].title.is_none() && history[0].artist.is_none());
    assert_eq!(history[1].timestamp, 400);
    assert_eq!(history[1].track_id, 11);
    assert!(!history[1].is_master);
}

#[test]
fn same_track_after_an_empty_deck_is_a_change() {
    let mut client = ProDjLinkClient::new();
    client.parse_cdj_status(&deck_packet(2, 0, 10), A, 1);
    client.parse_cdj_status(&deck_packet(2, 0, 0), A, 2);
    client.parse_cdj_status(&deck_packet(2, 0, 10), A, 3);
    assert_eq!(client.get_track_history().len(), 2);
}

#[test]
fn history_is_drained() {
    let mut client = ProDjLinkClient::new();
    client.parse_cdj_status(&deck_packet(2, 0, 10), A, 1);
    assert_eq!(client.get_track_history().len(), 1);
    assert_eq!(client.drain_track_history().len(), 1);
    assert!(client.drain_track_history().is_empty());
    client.parse_cdj_status(&deck_packet(2, 0, 10), A, 2);
    assert!(client.get_track_history().is_empty());
    assert!(client.has_devices());
}

#[test]
fn history_keeps_the_newest_100() {
    let mut client = ProDjLinkClient::new();
    for i in 1u32..=130 {
        client.parse_cdj_status(&deck_packet(2, 0, i), A, i as u64);
    }
    let history = client.get_track_history();
    assert_eq!(history.len(), HISTORY_SIZE);
    assert_eq!(HISTORY_SIZE, 100);
    assert_eq!(history[0].track_id, 31);
    assert_eq!(history[99].track_id, 130);
}

#[test]
fn history_learns_of_metadata_once() {
    let mut client = ProDjLinkClient::new();
    client.parse_cdj_status(&deck_packet(1, 0, 10), A, 1);
    client.parse_cdj_status(&deck_packet(2, 0, 11), A, 2);
    client.parse_cdj_status(&deck_packet(3, 0, 10), A, 3);
    client.update_history_metadata(10, "Title", "Artist");
    client.update_history_metadata(10, "Other", "Other");
    client.update_history_metadata(99, "Other", "Other");
    let history = client.get_track_history();
    assert_eq!(history[0].title.as_deref(), Some("Title"));
    assert_eq!(history[0].artist.as_deref(), Some("Artist"));
    assert_eq!(history[1].title, None);
    assert_eq!(history[2].title.as_deref(), Some("Title"));
    assert_eq!(history[2].timestamp, 3);
}

#[test]
fn cached_metadata_goes_into_the_history() {
    let mut client = ProDjLinkClient::new();
    client.finish_metadata_fetch(key_of(2, 10), Some(song("Title", "Artist", 1)));
    client.parse_cdj_status(&deck_packet(2, 0, 10), A, 5);
    let history = client.get_track_history();
    assert_eq!(history[0].title.as_deref(), Some("Title"));
    assert_eq!(history[0].artist.as_deref(), Some("Artist"));
}

#[test]
fn announced_devices_have_no_status() {
    let mut client = ProDjLinkClient::new();
    client.receive_announcement(&from(alive_packet(3, b"XDJ\0"), C), 5);
    let (infos, requests) = client.get_device_info(5);
    assert_eq!(infos[0].device_id, 3);
    assert_eq!(infos[0].name, "XDJ");
    assert_eq!(infos[0].ip, C);
    assert!(!infos[0].track_loaded && !infos[0].is_playing && infos[0].bpm.is_none());
    assert!(requests.is_empty());
}

#[test]
fn announcements_keep_what_is_known() {
    let mut client = ProDjLinkClient::new();
    client.parse_cdj_status(&deck_packet(3, PLAYING, 7), A, 5);
    client.receive_announcement(&from(alive_packet(3, b"Other"), B), 6);
    let (infos, _) = client.get_device_info(6);
    assert_eq!(infos[0].name, "CDJ-3000");
    assert_eq!(infos[0].ip, A);
    assert!(infos[0].is_playing && infos[0].track_loaded);
}

#[test]
fn announcements_name_the_nameless() {
    let mut client = ProDjLinkClient::new();
    client.receive_announcement(&from(alive_packet(3, b""), A), 1);
    assert_eq!(client.get_devices()[0].1, "");
    client.receive_announcement(&from(alive_packet(3, b" DJS-1000 "), A), 2);
    assert_eq!(client.get_devices()[0].1, "DJS-1000");
    client.receive_announcement(&from(alive_packet(3, b"Later"), A), 3);
    assert_eq!(client.get_devices()[0].1, "DJS-1000");
}

#[test]
fn announcements_need_a_whole_packet() {
    let mut client = ProDjLinkClient::new();
    let packet = alive_packet(3, b"XDJ");
    client.receive_announcement(&from(packet[..0x35].to_vec(), A), 1);
    client.receive_announcement(&from(deck_packet(3, 0, 0), A), 1);
    assert!(!client.has_devices());
}

#[test]
fn silent_devices_are_forgotten() {
    let mut client = ProDjLinkClient::new();
    client.parse_cdj_status(&deck_packet(1, 0, 0), A, 1_000);
    client.parse_cdj_status(&deck_packet(2, 0, 0), A, 2_000);
    client.prune(1_000 + DEVICE_TIMEOUT - 1);
    assert_eq!(client.peer_count(), 2);
    client.prune(1_000 + DEVICE_TIMEOUT);
    assert_eq!(client.get_devices()[0].0, 2);
    assert_eq!(client.peer_count(), 1);
    client.receive_announcement(&from(alive_packet(2, b""), A), 2_000 + DEVICE_TIMEOUT);
    client.prune(2_000 + DEVICE_TIMEOUT);
    assert_eq!(client.peer_count(), 1);
    client.prune(2_000 + 2 * DEVICE_TIMEOUT);
    assert!(!client.has_devices());
    assert_eq!(DEVICE_TIMEOUT, 10_000_000_000);
}

#[test]
fn mixer_sets_on_air() {
    let mut client = ProDjLinkClient::new();
    client.set_our_device_id(6);
    for id in 1u8..=5 {
        client.parse_cdj_status(&deck_packet(id, ON_AIR, 0), A, 1);
    }
    client.receive_status_packet(&from(mixer_packet(0b0000_0101), B), 2);
    let (infos, _) = client.get_device_info(2);
    let on_air: Vec<bool> = infos.iter().map(|i| i.is_on_air).collect();
    assert_eq!(on_air, vec![true, false, true, false, true, false]);
    client.parse_mixer_on_air(&mixer_packet(0b1111_1010));
    let (infos, _) = client.get_device_info(2);
    let on_air: Vec<bool> = infos.iter().map(|i| i.is_on_air).collect();
    assert_eq!(on_air, vec![false, true, false, true, true, false]);
}

#[test]
fn short_mixer_packets_say_nothing() {
    let mut client = ProDjLinkClient::new();
    client.parse_cdj_status(&deck_packet(1, ON_AIR, 0), A, 1);
    client.parse_mixer_on_air(&mixer_packet(0)[..0x27]);
    let (infos, _) = client.get_device_info(2);
    assert!(infos[0].is_on_air);
}

#[test]
fn status_port_tells_packets_apart() {
    let mut client = ProDjLinkClient::new();
    client.receive_status_packet(&from(deck_packet(2, 0, 0), A), 1);
    assert_eq!(client.peer_count(), 1);
    let mut odd = deck_packet(3, 0, 0);
    odd[0x0a] = 0x0b;
    client.receive_status_packet(&from(odd, A), 1);
    let mut other = deck_packet(3, 0, 0);
    other[0] = 0;
    client.receive_status_packet(&from(other, A), 1);
    client.receive_status_packet(&from(alive_packet(3, b""), A), 1);
    assert_eq!(client.peer_count(), 1);
}

#[test]
fn menu_packets_are_filtered_and_taken() {
    let mut client = ProDjLinkClient::new();
    let mut by_number = mixer_packet(1);
    by_number[0x21] = 2;
    client.receive_status_packet(&from(by_number.clone(), A), 1);
    client.receive_status_packet(&from(mixer_packet(2), B), 1);
    client.receive_status_packet(&from(mixer_packet(3), A), 1);
    client.receive_status_packet(&from(mixer_packet(4), B), 1);
    let packets = client.take_menu_packets(2, B);
    assert_eq!(packets, vec![by_number, mixer_packet(2), mixer_packet(4)]);
    assert!(client.take_menu_packets(2, B).is_empty());
}

#[test]
fn short_menu_packets_have_no_number() {
    let mut client = ProDjLinkClient::new();
    let mut short = mixer_packet(0);
    short.truncate(0x21);
    client.receive_status_packet(&from(short.clone(), A), 1);
    assert_eq!(client.take_menu_packets(0, B), vec![short]);
}

#[test]
fn menu_packet_queue_is_bounded() {
    let mut client = ProDjLinkClient::new();
    for mask in 0u8..80 {
        client.receive_status_packet(&from(mixer_packet(mask), A), 1);
    }
    let packets = client.take_menu_packets(0, A);
    assert_eq!(packets.len(), 51);
    assert_eq!(packets[0][0x27], 29);
    assert_eq!(packets[50][0x27], 79);
}

#[test]
fn master_track_is_current() {
    let mut client = ProDjLinkClient::new();
    client.parse_cdj_status(&deck_packet(1, PLAYING, 5), A, 1);
    client.parse_cdj_status(&deck_packet(3, MASTER | PLAYING, 77), B, 1);
    let (track, _) = client.current_track(1);
    let track = track.unwrap();
    assert_eq!(track.title, "Track 77");
    assert_eq!(track.artist, "CDJ-3000");
    assert_eq!(track.album, None);
    assert_eq!(track.duration, None);
    assert_eq!(track.position, None);
    assert!(track.is_playing);
    assert_eq!(track.bpm, Some(12850));
    assert_eq!(track.source, "Pioneer CDJ");
    assert_eq!(track.deck, Some(3));
    assert_eq!(track.artwork, None);
}

#[test]
fn master_without_track_is_not_current() {
    let mut client = ProDjLinkClient::new();
    client.parse_cdj_status(&deck_packet(1, MASTER, 0), A, 1);
    client.parse_cdj_status(&deck_packet(2, 0, 9), A, 1);
    let (track, request) = client.current_track(u64::MAX);
    assert!(track.is_none() && request.is_none());
}

#[test]
fn lowest_master_counts() {
    let mut client = ProDjLinkClient::new();
    client.parse_cdj_status(&deck_packet(4, MASTER, 4), A, 1);
    client.parse_cdj_status(&deck_packet(2, MASTER, 2), A, 1);
    assert_eq!(client.current_track(1).0.unwrap().deck, Some(2));
}

#[test]
fn fetch_waits_after_a_track_change() {
    let mut client = ProDjLinkClient::new();
    client.parse_cdj_status(&deck_packet(2, MASTER, 9), B, 1_000);
    assert_eq!(client.current_track(1_000 + DEBOUNCE_DELAY - 1).1, None);
    assert!(client.get_device_info(1_000 + DEBOUNCE_DELAY - 1).1.is_empty());
    let request = client.current_track(1_000 + DEBOUNCE_DELAY).1;
    assert_eq!(request, Some(FetchRequest { device_ip: B, key: key_of(2, 9) }));
    assert_eq!(DEBOUNCE_DELAY, 300_000_000);
}

#[test]
fn fetch_starts_once() {
    let mut client = ProDjLinkClient::new();
    let key = key_of(2, 9);
    let request = Some(FetchRequest { device_ip: A, key });
    assert_eq!(client.start_metadata_fetch(A, key, 2, 0), request);
    assert_eq!(client.start_metadata_fetch(A, key, 2, 0), None);
    assert_eq!(client.start_metadata_fetch(A, key, 3, u64::MAX), None);
    client.finish_metadata_fetch(key, None);
    assert_eq!(client.start_metadata_fetch(A, key, 2, 0), request);
    client.finish_metadata_fetch(key, Some(song("T", "A", 0)));
    assert_eq!(client.start_metadata_fetch(A, key, 2, 0), None);
}

#[test]
fn fetch_asks_the_player_with_the_medium() {
    let mut client = ProDjLinkClient::new();
    client.parse_cdj_status(&deck_packet(1, 0, 0), A, 0);
    let mut packet = deck_packet(2, MASTER, 9);
    packet[0x28] = 1;
    client.parse_cdj_status(&packet, B, 0);
    let expected = FetchRequest { device_ip: A, key: key_of(1, 9) };
    assert_eq!(client.current_track(DEBOUNCE_DELAY).1, Some(expected));
    let mut client = ProDjLinkClient::new();
    client.parse_cdj_status(&packet, B, 0);
    let expected = FetchRequest { device_ip: B, key: key_of(1, 9) };
    assert_eq!(client.current_track(DEBOUNCE_DELAY).1, Some(expected));
}

#[test]
fn all_loaded_tracks_are_asked_about_once() {
    let mut client = ProDjLinkClient::new();
    client.parse_cdj_status(&deck_packet(3, 0, 30), C, 0);
    client.parse_cdj_status(&deck_packet(1, 0, 10), A, 0);
    let mut same = deck_packet(2, 0, 10);
    same[0x28] = 1;
    client.parse_cdj_status(&same, B, 0);
    client.parse_cdj_status(&deck_packet(4, 0, 0), A, 0);
    let (_, requests) = client.cdj_devices(DEBOUNCE_DELAY);
    assert_eq!(
        requests,
        vec![
            FetchRequest { device_ip: A, key: key_of(1, 10) },
            FetchRequest { device_ip: C, key: key_of(3, 30) },
        ]
    );
    assert!(client.cdj_devices(DEBOUNCE_DELAY).1.is_empty());
}

#[test]
fn fetched_metadata_is_reported() {
    let mut client = ProDjLinkClient::new();
    client.parse_cdj_status(&deck_packet(2, MASTER, 9), B, 0);
    let mut metadata = song("Title", "Artist", 4);
    metadata.album = Some("Album".to_string());
    metadata.duration = Some(181_500);
    client.finish_metadata_fetch(key_of(2, 9), Some(metadata.clone()));
    let (track, request) = client.current_track(DEBOUNCE_DELAY);
    let track = track.unwrap();
    assert_eq!(track.title, "Title");
    assert_eq!(track.artist, "Artist");
    assert_eq!(track.album.as_deref(), Some("Album"));
    assert_eq!(track.duration, Some(181_500));
    assert_eq!(request, None);
    let (infos, requests) = client.get_device_info(DEBOUNCE_DELAY);
    assert_eq!(infos[0].clone().track_title.as_deref(), Some("Title"));
    assert_eq!(infos[0].track_artist.as_deref(), Some("Artist"));
    assert!(requests.is_empty());
}

#[test]
fn status_message_lists_devices() {
    let mut client = ProDjLinkClient::new();
    client.parse_cdj_status(&deck_packet(2, MASTER | PLAYING, 9), B, 0);
    let mut looping = deck_packet(1, PLAYING, 0);
    looping[0x7b] = 0x12;
    client.parse_cdj_status(&looping, A, 0);
    client.receive_announcement(&from(alive_packet(3, b"XDJ"), A), 0);
    assert_eq!(
        client.get_status_message(),
        "CDJ: 3 (CDJ-3000 [play][loop], CDJ-3000 [M][play], XDJ)"
    );
}

#[test]
fn status_message_tells_of_errors() {
    let mut client = ProDjLinkClient::new();
    client.parse_cdj_status(&deck_packet(2, 0, 9), B, 0);
    client.set_last_error("Could not determine local IP address".to_string());
    assert_eq!(client.get_status_message(), "CDJ: Could not determine local IP address");
}

#[test]
fn full_cache_gives_up_its_oldest() {
    let mut cache = MetadataCache::new();
    for i in 0..CACHE_SIZE as u32 {
        let age = if i == 250 { 1 } else { 1_000 + i as u64 };
        cache.insert(key_of(1, i), song("T", "A", age));
    }
    assert!(cache.contains_key(&key_of(1, 250)));
    cache.insert(key_of(1, 9_000), song("New", "A", 9_000));
    assert!(!cache.contains_key(&key_of(1, 250)));
    assert!(cache.contains_key(&key_of(1, 0)));
    assert_eq!(cache.get(&key_of(1, 9_000)).unwrap().title, "New");
    let held = (0..CACHE_SIZE as u32).filter(|i| cache.contains_key(&key_of(1, *i))).count();
    assert_eq!(held, 499);
    assert_eq!(CACHE_SIZE, 500);
}

#[test]
fn cache_overwrites() {
    let mut cache = MetadataCache::new();
    cache.insert(key_of(1, 1), song("Old", "A", 1));
    cache.insert(key_of(1, 1), song("New", "B", 2));
    assert_eq!(cache.get(&key_of(1, 1)).unwrap().title, "New");
    assert!(cache.get(&key_of(2, 1)).is_none());
    assert!(cache.get(&MetadataKey { device_id: 1, slot: 2, track_id: 1 }).is_none());
}

#[test]
fn pending_fetches_are_a_set() {
    let mut pending = PendingFetches::new();
    pending.insert(key_of(1, 1));
    pending.insert(key_of(1, 1));
    pending.insert(key_of(1, 2));
    assert!(pending.contains(&key_of(1, 1)));
    pending.remove(&key_of(1, 1));
    assert!(!pending.contains(&key_of(1, 1)));
    assert!(pending.contains(&key_of(1, 2)));
    pending.remove(&key_of(1, 9));
    assert!(pending.contains(&key_of(1, 2)));
}
