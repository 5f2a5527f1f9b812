use prodjlink_rs::bytes::{
    append_be32, append_padded, copy_bytes, read_be16, read_be32, starts_with, take_until_nul,
};
use prodjlink_rs::dbserver::{
    build_greeting, build_metadata_request, build_render_request, build_setup_request,
    dbserver_port, parse_menu_packets, parse_rendered_rows, port_query, read_menu_reply,
    scan_strings, LengthUnit, MenuReply,
};
use prodjlink_rs::model::DeckStatus;
use prodjlink_rs::packet::{
    broadcast_ip, build_keep_alive_packet, build_status_packet, clean_name, get_pseudo_mac,
    read_channel_on_air, read_keep_alive_id, read_keep_alive_name, read_packet_type,
    read_status_deck, read_status_id, read_status_name, PRODJLINK_HEADER,
};
use prodjlink_rs::text::{decimal_text, join_text, utf8_text};

fn utf16_field(unit: LengthUnit, text: &str) -> Vec<u8> {
    let units: Vec<u16> = text.encode_utf16().collect();
    let length = match unit {
        LengthUnit::Bytes => 2 * units.len(),
        LengthUnit::Units => units.len(),
    };
    let mut field = vec![0x26];
    field.extend_from_slice(&(length as u32).to_be_bytes());
    for u in units {
        field.extend_from_slice(&u.to_be_bytes());
    }
    field
}

fn raw_units_field(units: &[u16]) -> Vec<u8> {
    let mut field = vec![0x26];
    field.extend_from_slice(&(units.len() as u32).to_be_bytes());
    for u in units {
        field.extend_from_slice(&u.to_be_bytes());
    }
    field
}

fn named_status(name: &[u8]) -> Vec<u8> {
    let mut packet = build_status_packet(2, "", 0);
    packet[0x0b..0x0b + name.len()].copy_from_slice(name);
    packet
}

#[test]
fn numbers_are_big_endian() {
    let mut data: Vec<u8> = Vec::new();
    append_be32(&mut data, 0x0102_fe80);
    assert_eq!(data, vec![0x01, 0x02, 0xfe, 0x80]);
    assert_eq!(read_be32(&data, 0), 0x0102_fe80);
    assert_eq!(read_be16(&data, 1), 0x02fe);
    append_be32(&mut data, u32::MAX);
    assert_eq!(read_be32(&data, 4), u32::MAX);
}

#[test]
fn padding_cuts_and_fills() {
    let mut data: Vec<u8> = vec![9];
    append_padded(&mut data, b"abc", 2, 4);
    assert_eq!(data, vec![9, b'a', b'b', 0, 0]);
    let mut data: Vec<u8> = Vec::new();
    append_padded(&mut data, b"abc", 5, 5);
    assert_eq!(data, vec![b'a', b'b', b'c', 0, 0]);
}

#[test]
fn fields_end_at_the_first_nul() {
    assert_eq!(take_until_nul(b"ab\0cd\0"), b"ab");
    assert_eq!(take_until_nul(b"abcd"), b"abcd");
    assert_eq!(take_until_nul(b"\0abcd"), b"");
    assert_eq!(take_until_nul(b""), b"");
}

#[test]
fn prefixes() {
    assert!(starts_with(b"abc", b"ab"));
    assert!(starts_with(b"abc", b""));
    assert!(starts_with(b"abc", b"abc"));
    assert!(!starts_with(b"abc", b"abd"));
    assert!(!starts_with(b"ab", b"abc"));
    assert_eq!(copy_bytes(b"abc"), b"abc".to_vec());
}

#[test]
fn status_packet_bytes() {
    let packet = build_status_packet(5, "REACT", 0x7e);
    assert_eq!(packet.len(), 212);
    let mut expected = vec![0u8; 212];
    expected[..10].copy_from_slice(&[
        0x51, 0x73, 0x70, 0x74, 0x31, 0x57, 0x6d, 0x4a, 0x4f, 0x4c,
    ]);
    expected[0x0a] = 0x0a;
    expected[0x0b..0x10].copy_from_slice(b"REACT");
    expected[0x20] = 0x01;
    expected[0x21] = 5;
    expected[0x23] = 0xd4;
    expected[0xc8] = 0x7e;
    assert_eq!(packet, expected);
}

#[test]
fn status_packet_cuts_long_names() {
    let packet = build_status_packet(5, "abcdefghijklmnopqrstuvwxyz", 0);
    assert_eq!(packet.len(), 212);
    assert_eq!(&packet[0x0b..0x20], b"abcdefghijklmnopqrst\0");
    assert_eq!(packet[0x20], 0x01);
}

#[test]
fn keep_alive_packet_bytes() {
    let packet =
        build_keep_alive_packet(6, "REACT", &[2, 0xc0, 0x11, 1, 2, 3], &[10, 1, 2, 3], 4);
    let mut expected = PRODJLINK_HEADER.to_vec();
    expected.extend_from_slice(&[0x06, 0x00, 0x00, 0x10]);
    expected.extend_from_slice(b"REACT\0\0\0\0\0\0\0\0\0\0\0\0\0");
    expected.extend_from_slice(&[0x01, 0x02, 0x00, 0x36, 6, 0x01]);
    expected.extend_from_slice(&[2, 0xc0, 0x11, 1, 2, 3]);
    expected.extend_from_slice(&[10, 1, 2, 3]);
    expected.extend_from_slice(&[0x30, 4, 0x00, 0x00, 0x01, 0x01]);
    assert_eq!(packet.len(), 54);
    assert_eq!(packet, expected);
}

#[test]
fn keep_alive_packet_cuts_long_names() {
    let packet = build_keep_alive_packet(1, "abcdefghijklmnopqrstuvwxyz", &[0; 6], &[0; 4], 0);
    assert_eq!(packet.len(), 54);
    assert_eq!(&packet[0x0e..0x20], b"abcdefghijklmnopqr");
}

#[test]
fn addresses_are_made_of_the_local_ip() {
    assert_eq!(get_pseudo_mac(&[192, 168, 1, 77]), [0x02, 0xc0, 0x11, 168, 1, 77]);
    assert_eq!(broadcast_ip(&[192, 168, 1, 77]), [192, 168, 1, 255]);
}

#[test]
fn own_packets_read_back() {
    let status = build_status_packet(3, "REACT", 9);
    assert_eq!(read_packet_type(&status), Some(0x0a));
    assert_eq!(read_status_id(&status), Some(3));
    assert_eq!(read_status_name(&status), "REACT");
    assert_eq!(read_status_deck(&status), DeckStatus::default());
    let alive = build_keep_alive_packet(3, "REACT", &[0; 6], &[0; 4], 0);
    assert_eq!(read_packet_type(&alive), Some(0x06));
    assert_eq!(read_keep_alive_id(&alive), Some(3));
    assert_eq!(read_keep_alive_name(&alive), "");
}

#[test]
fn packet_type_needs_the_header() {
    let mut packet = PRODJLINK_HEADER.to_vec();
    assert_eq!(read_packet_type(&packet), None);
    packet.push(0x40);
    assert_eq!(read_packet_type(&packet), Some(0x40));
    packet[9] = 0;
    assert_eq!(read_packet_type(&packet), None);
    assert_eq!(read_packet_type(&[]), None);
}

#[test]
fn only_player_numbers_count() {
    for id in 0u8..=255 {
        let player = (1..=6).contains(&id);
        let status = build_status_packet(id, "x", 0);
        assert_eq!(read_status_id(&status), if player { Some(id) } else { None });
        let alive = build_keep_alive_packet(id, "x", &[0; 6], &[0; 4], 0);
        assert_eq!(read_keep_alive_id(&alive), if player { Some(id) } else { None });
    }
    let status = build_status_packet(2, "x", 0);
    assert_eq!(read_status_id(&status[..0x22]), Some(2));
    assert_eq!(read_status_id(&status[..0x21]), None);
    assert_eq!(read_keep_alive_id(&status), None);
    let alive = build_keep_alive_packet(2, "x", &[0; 6], &[0; 4], 0);
    assert_eq!(read_keep_alive_id(&alive[..53]), None);
    assert_eq!(read_status_id(&alive), None);
}

#[test]
fn names_are_trimmed() {
    assert_eq!(read_status_name(&named_status(b"  CDJ-3000 \t\0junk")), "CDJ-3000");
    assert_eq!(read_status_name(&named_status(b"XDJ 1000 MK2")), "XDJ 1000 MK2");
    let wide = "\u{3000}DJ\u{a0}S\u{2003}";
    assert_eq!(read_status_name(&named_status(wide.as_bytes())), "DJ\u{a0}S");
    assert_eq!(read_status_name(&named_status(b"123456789012345678901")), "123456789012345678901");
    assert_eq!(clean_name("\u{85} a b \u{2029}"), "a b");
    assert_eq!(clean_name("\u{200b}"), "\u{200b}");
    assert_eq!(clean_name(" \n"), "");
}

#[test]
fn invalid_name_bytes_are_replaced() {
    assert_eq!(read_status_name(&named_status(b"A\xff\xfeB")), "A\u{fffd}\u{fffd}B");
    assert_eq!(read_status_name(&named_status(b"\xe2\x82")), "\u{fffd}");
    assert_eq!(utf8_text(b"na\xc3\xafve"), "na\u{ef}ve");
    assert_eq!(utf8_text(b"\xf0\x9f\x8e\xa7"), "\u{1f3a7}");
    assert_eq!(utf8_text(b""), "");
}

#[test]
fn keep_alive_name_starts_where_players_put_it() {
    let mut packet = build_keep_alive_packet(4, "", &[0; 6], &[0; 4], 0);
    packet[0x0c..0x14].copy_from_slice(b"CDJ-3000");
    assert_eq!(read_keep_alive_name(&packet), "CDJ-3000");
}

#[test]
fn deck_status_is_read() {
    let mut packet = build_status_packet(2, "CDJ", 0);
    packet[0x28] = 3;
    packet[0x29] = 2;
    packet[0x2c..0x30].copy_from_slice(&[0x00, 0x01, 0x02, 0x03]);
    packet[0x7b] = 0x03;
    packet[0x89] = 0x68;
    packet[0x92] = 0x32;
    packet[0x93] = 0x64;
    packet[0xa6] = 4;
    assert_eq!(
        read_status_deck(&packet),
        DeckStatus {
            track_loaded: true,
            is_playing: true,
            is_looping: false,
            is_master: true,
            is_on_air: true,
            bpm: Some(12900),
            track_device_id: 3,
            track_slot: 2,
            track_id: 0x010203,
            beat_in_measure: 4,
        }
    );
}

#[test]
fn deck_flags_are_separate_bits() {
    let mut packet = build_status_packet(2, "CDJ", 0);
    for (flags, playing, master, on_air) in [
        (0x40u8, true, false, false),
        (0x20, false, true, false),
        (0x08, false, false, true),
        (0x97, false, false, false),
        (0xff, true, true, true),
    ] {
        packet[0x89] = flags;
        let deck = read_status_deck(&packet);
        assert_eq!((deck.is_playing, deck.is_master, deck.is_on_air), (playing, master, on_air));
    }
}

#[test]
fn missing_flags_are_not_set() {
    let mut packet = build_status_packet(2, "CDJ", 0);
    packet[0x7b] = 0x04;
    packet[0x89] = 0xff;
    let deck = read_status_deck(&packet[..0x8a]);
    assert!(deck.is_playing && deck.is_master && deck.is_on_air && deck.is_looping);
    for length in [0x89, 0x7c] {
        let deck = read_status_deck(&packet[..length]);
        assert!(!deck.is_playing && !deck.is_master && !deck.is_on_air);
        assert!(deck.is_looping);
    }
}

#[test]
fn loops_are_two_play_modes() {
    let mut packet = build_status_packet(2, "CDJ", 0);
    for mode in 0u8..=255 {
        packet[0x7b] = mode;
        assert_eq!(read_status_deck(&packet).is_looping, mode == 0x04 || mode == 0x12);
    }
}

#[test]
fn tempo_has_bounds() {
    let mut packet = build_status_packet(2, "CDJ", 0);
    for (raw, bpm) in [
        (0u16, None),
        (1, Some(1u16)),
        (29999, Some(29999)),
        (30000, None),
        (0xffff, None),
    ] {
        packet[0x92..0x94].copy_from_slice(&raw.to_be_bytes());
        assert_eq!(read_status_deck(&packet).bpm, bpm);
    }
    packet[0x92..0x94].copy_from_slice(&12800u16.to_be_bytes());
    assert_eq!(read_status_deck(&packet[..0x94]).bpm, Some(12800));
    assert_eq!(read_status_deck(&packet[..0x93]).bpm, None);
}

#[test]
fn beat_needs_a_long_packet() {
    let mut packet = build_status_packet(2, "CDJ", 0);
    packet[0xa6] = 3;
    assert_eq!(read_status_deck(&packet[..0xa7]).beat_in_measure, 3);
    assert_eq!(read_status_deck(&packet[..0xa6]).beat_in_measure, 0);
}

#[test]
fn mixer_channels_are_bits() {
    for id in 1u8..=4 {
        for mask in 0u8..=255 {
            assert_eq!(read_channel_on_air(mask, id), mask & (1 << (id - 1)) != 0);
        }
    }
    assert!(read_channel_on_air(0b0100, 3));
    assert!(!read_channel_on_air(0b0100, 2));
}

#[test]
fn port_is_asked_and_answered() {
    assert_eq!(port_query(), b"\x00\x00\x00\x0fRemoteDBServer\x00".to_vec());
    assert_eq!(dbserver_port(Some([0x04, 0x1c])), 0x041c);
    assert_eq!(dbserver_port(Some([0xff, 0xff])), 65535);
    assert_eq!(dbserver_port(None), 1051);
}

#[test]
fn greeting_bytes() {
    assert_eq!(build_greeting(), vec![0x11, 0x00, 0x00, 0x00, 0x01]);
}

#[test]
fn setup_request_bytes() {
    assert_eq!(
        build_setup_request(5, 2),
        vec![
            0x11, 0x87, 0x23, 0x49, 0xae, 0x11, 0xff, 0xff, 0xff, 0xfe, 0x10, 0x00, 0x00, 0x0f,
            0x01, 0x14, 0x00, 0x00, 0x00, 0x01, 0x06, 0x11, 0x00, 0x00, 0x00, 0x05,
        ]
    );
}

#[test]
fn metadata_request_bytes() {
    assert_eq!(
        build_metadata_request(5, 2, 3, 0x01020304),
        vec![
            0x11, 0x87, 0x23, 0x49, 0xae, 0x11, 0x00, 0x00, 0x00, 0x02, 0x10, 0x20, 0x02, 0x0f,
            0x02, 0x14, 0x00, 0x00, 0x00, 0x02, 0x06, 0x06, 0x11, 0x05, 0x01, 0x03, 0x01, 0x11,
            0x01, 0x02, 0x03, 0x04,
        ]
    );
}

#[test]
fn render_request_bytes() {
    assert_eq!(
        build_render_request(5, 2, 3, 9, 10, 10, 0x0a0b0c0d),
        vec![
            0x11, 0x87, 0x23, 0x49, 0xae, 0x11, 0x0a, 0x0b, 0x0c, 0x0d, 0x10, 0x30, 0x00, 0x0f,
            0x06, 0x14, 0x00, 0x00, 0x00, 0x06, 0x06, 0x06, 0x06, 0x06, 0x06, 0x06, 0x11, 0x05,
            0x01, 0x03, 0x01, 0x11, 0x00, 0x00, 0x00, 0x00, 0x11, 0x00, 0x00, 0x00, 0x0a, 0x11,
            0x00, 0x00, 0x00, 0x00, 0x11, 0x00, 0x00, 0x00, 0x0a, 0x11, 0x00, 0x00, 0x00, 0x00,
        ]
    );
}

#[test]
fn render_request_asks_for_64_rows_at_most() {
    let packet = build_render_request(5, 2, 3, 9, 65, 1000, 1);
    assert_eq!(&packet[36..41], &[0x11, 0, 0, 0, 64]);
    assert_eq!(&packet[46..51], &[0x11, 0, 0, 0x03, 0xe8]);
    let packet = build_render_request(5, 2, 3, 9, 64, 64, 1);
    assert_eq!(&packet[36..41], &[0x11, 0, 0, 0, 64]);
}

fn menu_message(kind: u16, size: u32) -> Vec<u8> {
    let mut reply = vec![0x11, 0x87, 0x23, 0x49, 0xae, 0x11, 0, 0, 0, 2, 0x10];
    reply.extend_from_slice(&kind.to_be_bytes());
    reply.extend_from_slice(&[0x0f, 2, 0x14, 0, 0, 0, 2, 6, 6, 0x11, 0, 0, 0x20, 0x02, 0x11]);
    reply.extend_from_slice(&size.to_be_bytes());
    reply
}

#[test]
fn menu_reply_is_read() {
    assert_eq!(
        read_menu_reply(&menu_message(0x4000, 11)),
        Some(MenuReply { txid: 2, menu_size: 11 })
    );
}

#[test]
fn menu_size_falls_back_to_16() {
    let other = Some(MenuReply { txid: 2, menu_size: 16 });
    assert_eq!(read_menu_reply(&menu_message(0x0100, 11)), other);
    let full = menu_message(0x4000, 11);
    assert_eq!(read_menu_reply(&full[..31]), other);
    assert_eq!(read_menu_reply(&full[..15]), other);
    let mut tagged = full.clone();
    tagged[15] = 0x13;
    assert_eq!(read_menu_reply(&tagged), other);
    let mut long = full.clone();
    long[16] = 0xff;
    assert_eq!(read_menu_reply(&long), other);
    let mut first = full.clone();
    first[22] = 0x10;
    assert_eq!(read_menu_reply(&first), other);
    let mut second = full.clone();
    second[27] = 0x10;
    assert_eq!(read_menu_reply(&second), other);
}

#[test]
fn menu_reply_may_be_none() {
    assert_eq!(read_menu_reply(&menu_message(0x4003, 11)), None);
    assert_eq!(read_menu_reply(&menu_message(0x4000, 11)[..14]), None);
    assert_eq!(read_menu_reply(&[]), None);
}

#[test]
fn rows_give_title_and_artist() {
    let mut data = vec![0x11, 0x87, 0x23, 0x49, 0xae];
    data.extend(utf16_field(LengthUnit::Units, "Strings of Life\0"));
    data.extend_from_slice(&[0x41, 0x01]);
    data.extend(utf16_field(LengthUnit::Units, "Rhythim Is Rhythim\0"));
    data.extend(utf16_field(LengthUnit::Units, "Album\0"));
    let found = parse_rendered_rows(&data, 77).unwrap();
    assert_eq!(found.title, "Strings of Life");
    assert_eq!(found.artist, "Rhythim Is Rhythim");
    assert_eq!(found.album, None);
    assert_eq!(found.duration, None);
    assert_eq!(found.fetched_at, 77);
}

#[test]
fn rows_without_artist() {
    let data = utf16_field(LengthUnit::Units, "Alone\0");
    let found = parse_rendered_rows(&data, 1).unwrap();
    assert_eq!(found.title, "Alone");
    assert_eq!(found.artist, "Unknown Artist");
}

#[test]
fn rows_without_strings() {
    assert!(parse_rendered_rows(&[], 1).is_none());
    assert!(parse_rendered_rows(&[0x42; 100], 1).is_none());
    assert!(parse_rendered_rows(&utf16_field(LengthUnit::Units, "\0\0 \0"), 1).is_none());
}

#[test]
fn padding_around_strings_is_removed() {
    let data = utf16_field(LengthUnit::Units, "\0\0 \u{2003}Deep\0Blue \u{3000}\0");
    assert_eq!(scan_strings(LengthUnit::Units, &data), vec!["Deep\0Blue"]);
    let data = utf16_field(LengthUnit::Units, " \0Inner\0 \0");
    assert_eq!(scan_strings(LengthUnit::Units, &data), vec!["\0Inner\0"]);
}

#[test]
fn surrogate_pairs_are_decoded() {
    let data = utf16_field(LengthUnit::Units, "\u{1f3a7} On\u{ffff}\0");
    assert_eq!(scan_strings(LengthUnit::Units, &data), vec!["\u{1f3a7} On\u{ffff}"]);
    let data = utf16_field(LengthUnit::Units, "\u{10000}\u{10ffff}");
    assert_eq!(scan_strings(LengthUnit::Units, &data), vec!["\u{10000}\u{10ffff}"]);
}

#[test]
fn broken_utf16_is_passed_over() {
    for units in [
        vec![0xd800u16, 0x41, 0x42],
        vec![0xdc00, 0x41, 0x42],
        vec![0x41, 0x42, 0xd800],
        vec![0xd800, 0xd800, 0xdc00],
    ] {
        let mut data = raw_units_field(&units);
        assert!(scan_strings(LengthUnit::Units, &data).is_empty());
        data.extend(utf16_field(LengthUnit::Units, "Next"));
        assert_eq!(scan_strings(LengthUnit::Units, &data), vec!["Next"]);
    }
}

#[test]
fn lengths_count_units_or_bytes() {
    let data = utf16_field(LengthUnit::Bytes, "Title");
    assert_eq!(scan_strings(LengthUnit::Bytes, &data), vec!["Title"]);
    assert!(scan_strings(LengthUnit::Units, &data).is_empty());
    let mut odd = vec![0x26, 0, 0, 0, 5, 0, 0x41, 0, 0x42, 0x99];
    assert_eq!(scan_strings(LengthUnit::Bytes, &odd), vec!["AB"]);
    odd[4] = 3;
    assert_eq!(scan_strings(LengthUnit::Bytes, &odd), vec!["A"]);
}

#[test]
fn lengths_have_limits() {
    let text = "x".repeat(511);
    let data = utf16_field(LengthUnit::Units, &text);
    assert_eq!(scan_strings(LengthUnit::Units, &data), vec![text]);
    let data = utf16_field(LengthUnit::Units, &"x".repeat(512));
    assert!(scan_strings(LengthUnit::Units, &data).is_empty());
    let text = "x".repeat(255);
    let data = utf16_field(LengthUnit::Bytes, &text);
    assert_eq!(scan_strings(LengthUnit::Bytes, &data), vec![text]);
    let data = utf16_field(LengthUnit::Bytes, &"x".repeat(256));
    assert!(scan_strings(LengthUnit::Bytes, &data).is_empty());
    assert!(scan_strings(LengthUnit::Units, &[0x26, 0, 0, 0, 0, 0, 0x41, 0, 0x42]).is_empty());
    assert!(scan_strings(LengthUnit::Units, &[0x26, 0, 0, 0, 3, 0, 0x41, 0, 0x42]).is_empty());
    assert!(scan_strings(LengthUnit::Units, &[0x26, 0xff, 0xff, 0xff, 0xff, 0, 0x41]).is_empty());
}

#[test]
fn last_six_bytes_start_no_field() {
    let one = [0x26, 0, 0, 0, 1, 0, 0x41];
    assert_eq!(scan_strings(LengthUnit::Units, &one), vec!["A"]);
    assert!(scan_strings(LengthUnit::Units, &one[..6]).is_empty());
    assert!(scan_strings(LengthUnit::Bytes, &[0x26, 0, 0, 0, 1, 0x41]).is_empty());
}

#[test]
fn fields_are_not_looked_into() {
    let inner = [0x2600u16, 0x0000, 0x0100, 0x4141];
    let data = raw_units_field(&inner);
    assert_eq!(scan_strings(LengthUnit::Units, &data).len(), 1);
    assert_eq!(scan_strings(LengthUnit::Units, &data)[0], "\u{2600}\0\u{100}\u{4141}");
}

#[test]
fn menu_packets_give_title_and_artist() {
    let mut first = PRODJLINK_HEADER.to_vec();
    first.extend(utf16_field(LengthUnit::Bytes, "Title\0"));
    let second = utf16_field(LengthUnit::Bytes, "Artist\0");
    let found = parse_menu_packets(&vec![first, vec![0; 40], second], 5).unwrap();
    assert_eq!(found.title, "Title");
    assert_eq!(found.artist, "Artist");
    assert_eq!(found.fetched_at, 5);
    assert!(parse_menu_packets(&vec![], 5).is_none());
    assert!(parse_menu_packets(&vec![vec![0; 40]], 5).is_none());
}

#[test]
fn later_menu_packets_keep_the_title() {
    let first = utf16_field(LengthUnit::Bytes, "Title\0");
    let second = utf16_field(LengthUnit::Bytes, "Artist\0");
    let third = utf16_field(LengthUnit::Bytes, "Other\0");
    let found = parse_menu_packets(&vec![first.clone()], 5).unwrap();
    assert_eq!((found.title.as_str(), found.artist.as_str()), ("Title", "Unknown Artist"));
    let found = parse_menu_packets(&vec![first.clone(), second.clone()], 5).unwrap();
    assert_eq!((found.title.as_str(), found.artist.as_str()), ("Title", "Artist"));
    let found = parse_menu_packets(&vec![first, second, third], 5).unwrap();
    assert_eq!((found.title.as_str(), found.artist.as_str()), ("Title", "Artist"));
}

#[test]
fn numbers_in_decimal() {
    assert_eq!(decimal_text(0), "0");
    assert_eq!(decimal_text(9), "9");
    assert_eq!(decimal_text(10), "10");
    assert_eq!(decimal_text(1_234_567_890), "1234567890");
    assert_eq!(decimal_text(u32::MAX), "4294967295");
}

#[test]
fn texts_are_joined() {
    assert_eq!(join_text(&vec![], ", "), "");
    assert_eq!(join_text(&vec!["a".to_string()], ", "), "a");
    assert_eq!(
        join_text(&vec!["a".to_string(), "".to_string(), "c".to_string()], ", "),
        "a, , c"
    );
}
