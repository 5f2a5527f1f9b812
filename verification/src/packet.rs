//! The UDP packets of the link: status, keep-alive and mixer packets.
//!
//! Announcements travel on port 50000 and status on port 50002. Every packet starts
//! with the same ten bytes, followed by a type byte.

use crate::bytes::{
    append, append_padded, append_zeros, be16_value, be32_value, padded, read_be16, read_be32,
    starts_with, take_until_nul, until_nul, zeros,
};
use crate::model::DeckStatus;
use crate::text::{trim_space, trimmed_space, utf8_decoded, utf8_text};
use vstd::prelude::*;
use vstd::utf8::encode_utf8;

verus! {

/// The ten bytes that start every packet.
pub const PRODJLINK_HEADER: [u8; 10] = [
    0x51, 0x73, 0x70, 0x74, 0x31, 0x57, 0x6d, 0x4a, 0x4f, 0x4c,
];

/// Type byte of a keep-alive packet.
pub const PACKET_TYPE_KEEP_ALIVE: u8 = 0x06;

/// Type byte of a player's status packet.
pub const PACKET_TYPE_CDJ_STATUS: u8 = 0x0a;

/// Type byte of a mixer's on-air packet.
pub const PACKET_TYPE_MIXER: u8 = 0x40;

/// The type of a packet: its byte after the link header, if it has both.
pub open spec fn packet_type(data: Seq<u8>) -> Option<u8> {
    if data.len() >= 11 && data.take(10) == PRODJLINK_HEADER@ {
        Some(data[0x0a])
    } else {
        None
    }
}

/// Whether `id` is a number that a player can have.
pub open spec fn is_player_id(id: u8) -> bool {
    1 <= id <= 6
}

/// The player number that a keep-alive packet announces.
pub open spec fn keep_alive_id(data: Seq<u8>) -> Option<u8> {
    if data.len() >= 0x36 && packet_type(data) == Some(PACKET_TYPE_KEEP_ALIVE) && is_player_id(
        data[0x24],
    ) {
        Some(data[0x24])
    } else {
        None
    }
}

/// The player number that a status packet carries.
pub open spec fn status_id(data: Seq<u8>) -> Option<u8> {
    if data.len() >= 0x22 && packet_type(data) == Some(PACKET_TYPE_CDJ_STATUS) && is_player_id(
        data[0x21],
    ) {
        Some(data[0x21])
    } else {
        None
    }
}

/// The name in a NUL-terminated field, without white space around it.
pub open spec fn field_name(field: Seq<u8>) -> Seq<char> {
    trimmed_space(utf8_decoded(until_nul(field)))
}

/// The device name in a keep-alive packet.
pub open spec fn keep_alive_name(data: Seq<u8>) -> Seq<char> {
    field_name(data.subrange(0x0c, 0x20))
}

/// The device name in a status packet.
pub open spec fn status_name(data: Seq<u8>) -> Seq<char> {
    field_name(data.subrange(0x0b, 0x20))
}

/// The tempo in a status packet, in hundredths of a beat per minute: none if the packet
/// ends before it, or if it is zero or not below 300.
pub open spec fn status_bpm(data: Seq<u8>) -> Option<u16> {
    if data.len() > 0x93 && 0 < be16_value(data.subrange(0x92, 0x94)) < 30000 {
        Some(be16_value(data.subrange(0x92, 0x94)) as u16)
    } else {
        None
    }
}

/// The track id in a status packet.
pub open spec fn status_track_id(data: Seq<u8>) -> u32 {
    be32_value(data.subrange(0x2c, 0x30)) as u32
}

/// Whether any of `bits` is set in the flags of a status packet: none is where the packet
/// ends before its flags.
pub open spec fn status_flag(data: Seq<u8>, bits: u8) -> bool {
    data.len() > 0x89 && data[0x89] & bits != 0
}

/// The deck status in a status packet.
pub open spec fn status_deck(data: Seq<u8>) -> DeckStatus {
    DeckStatus {
        track_loaded: status_track_id(data) != 0,
        is_playing: status_flag(data, 0x40),
        is_looping: data[0x7b] == 0x04 || data[0x7b] == 0x12,
        is_master: status_flag(data, 0x20),
        is_on_air: status_flag(data, 0x08),
        bpm: status_bpm(data),
        track_device_id: data[0x28],
        track_slot: data[0x29],
        track_id: status_track_id(data),
        beat_in_measure: if data.len() > 0xa6 {
            data[0xa6]
        } else {
            0
        },
    }
}

/// Whether the mixer channel of player `id` (1-4) is on air in `mask`: bit 0 is channel 1.
pub open spec fn channel_on_air(mask: u8, id: u8) -> bool {
    mask & (1u8 << ((id - 1) as u8)) != 0
}

/// A status packet of a player without a track.
pub open spec fn status_packet(device_id: u8, name: Seq<u8>, packet_counter: u8) -> Seq<u8> {
    PRODJLINK_HEADER@ + seq![PACKET_TYPE_CDJ_STATUS] + padded(name, 20, 21) + seq![
        0x01u8,
        device_id,
        0x00,
        0xd4,
    ] + zeros(0xa4) + seq![packet_counter] + zeros(0x0b)
}

/// A keep-alive packet.
pub open spec fn keep_alive_packet(
    device_id: u8,
    name: Seq<u8>,
    mac: Seq<u8>,
    ip: Seq<u8>,
    peer_count: u8,
) -> Seq<u8> {
    PRODJLINK_HEADER@ + seq![PACKET_TYPE_KEEP_ALIVE, 0x00, 0x00, 0x10] + padded(name, 18, 18)
        + seq![0x01u8, 0x02, 0x00, 0x36, device_id, 0x01] + mac + ip + seq![
        0x30u8,
        peer_count,
        0x00,
        0x00,
        0x01,
        0x01,
    ]
}

/// A MAC address made of the local IP address: locally administered, then two fixed
/// bytes, then the last three octets.
pub fn get_pseudo_mac(local_ip: &[u8; 4]) -> (mac: [u8; 6])
    ensures
        mac@ == seq![0x02u8, 0xc0, 0x11, local_ip@[1], local_ip@[2], local_ip@[3]],
{
    let mac: [u8; 6] = [0x02, 0xc0, 0x11, local_ip[1], local_ip[2], local_ip[3]];
    assert(mac@ =~= seq![0x02u8, 0xc0, 0x11, local_ip@[1], local_ip@[2], local_ip@[3]]);
    mac
}

/// The broadcast address of the /24 network that `local_ip` is in.
pub fn broadcast_ip(local_ip: &[u8; 4]) -> (broadcast: [u8; 4])
    ensures
        broadcast@ == seq![local_ip@[0], local_ip@[1], local_ip@[2], 255u8],
{
    let broadcast: [u8; 4] = [local_ip[0], local_ip[1], local_ip[2], 255];
    assert(broadcast@ =~= seq![local_ip@[0], local_ip@[1], local_ip@[2], 255u8]);
    broadcast
}

/// Builds the status packet that makes players send us theirs: 212 bytes, no track, no
/// flags. The name is cut after 20 bytes.
pub fn build_status_packet(device_id: u8, device_name: &str, packet_counter: u8) -> (packet: Vec<
    u8,
>)
    ensures
        packet@ == status_packet(device_id, encode_utf8(device_name@), packet_counter),
        packet@.len() == 212,
{
    let mut packet: Vec<u8> = Vec::with_capacity(212);
    append(&mut packet, &PRODJLINK_HEADER);
    packet.push(PACKET_TYPE_CDJ_STATUS);
    append_padded(&mut packet, device_name.as_bytes(), 20, 21);
    append(&mut packet, &[0x01, device_id, 0x00, 0xd4]);
    append_zeros(&mut packet, 0xc8 - 0x24);
    packet.push(packet_counter);
    append_zeros(&mut packet, 212 - 0xc9);
    assert(packet@ =~= status_packet(device_id, encode_utf8(device_name@), packet_counter));
    packet
}

/// Builds the keep-alive packet that announces us: 54 bytes. The name is cut after 18
/// bytes.
pub fn build_keep_alive_packet(
    device_id: u8,
    device_name: &str,
    mac: &[u8; 6],
    ip: &[u8; 4],
    peer_count: u8,
) -> (packet: Vec<u8>)
    ensures
        packet@ == keep_alive_packet(
            device_id,
            encode_utf8(device_name@),
            mac@,
            ip@,
            peer_count,
        ),
        packet@.len() == 54,
{
    let mut packet: Vec<u8> = Vec::with_capacity(54);
    append(&mut packet, &PRODJLINK_HEADER);
    append(&mut packet, &[PACKET_TYPE_KEEP_ALIVE, 0x00, 0x00, 0x10]);
    append_padded(&mut packet, device_name.as_bytes(), 18, 18);
    append(&mut packet, &[0x01, 0x02, 0x00, 0x36, device_id, 0x01]);
    append(&mut packet, mac);
    append(&mut packet, ip);
    append(&mut packet, &[0x30, peer_count, 0x00, 0x00, 0x01, 0x01]);
    assert(packet@ =~= keep_alive_packet(
        device_id,
        encode_utf8(device_name@),
        mac@,
        ip@,
        peer_count,
    ));
    packet
}

/// The type of a packet, if it has the link header and a type.
pub fn read_packet_type(data: &[u8]) -> (kind: Option<u8>)
    ensures
        kind == packet_type(data@),
{
    if data.len() >= 11 && starts_with(data, &PRODJLINK_HEADER) {
        Some(data[0x0a])
    } else {
        None
    }
}

/// The player number that a keep-alive packet announces.
pub fn read_keep_alive_id(data: &[u8]) -> (id: Option<u8>)
    ensures
        id == keep_alive_id(data@),
{
    if data.len() < 0x36 {
        return None;
    }
    match read_packet_type(data) {
        Some(kind) => {
            let id = data[0x24];
            if kind == PACKET_TYPE_KEEP_ALIVE && 1 <= id && id <= 6 {
                Some(id)
            } else {
                None
            }
        },
        None => None,
    }
}

/// The player number that a status packet carries.
pub fn read_status_id(data: &[u8]) -> (id: Option<u8>)
    ensures
        id == status_id(data@),
{
    if data.len() < 0x22 {
        return None;
    }
    match read_packet_type(data) {
        Some(kind) => {
            let id = data[0x21];
            if kind == PACKET_TYPE_CDJ_STATUS && 1 <= id && id <= 6 {
                Some(id)
            } else {
                None
            }
        },
        None => None,
    }
}

/// A device name as it is kept: without white space around it.
pub fn clean_name(text: &str) -> (name: String)
    ensures
        name@ == trimmed_space(text@),
{
    trim_space(text).to_owned()
}

/// The name in a NUL-terminated field.
fn read_field_name(field: &[u8]) -> (name: String)
    ensures
        name@ == field_name(field@),
{
    clean_name(utf8_text(take_until_nul(field)).as_str())
}

/// The device name in a keep-alive packet.
pub fn read_keep_alive_name(data: &[u8]) -> (name: String)
    requires
        data@.len() >= 0x20,
    ensures
        name@ == keep_alive_name(data@),
{
    read_field_name(&data[0x0c..0x20])
}

/// The device name in a status packet.
pub fn read_status_name(data: &[u8]) -> (name: String)
    requires
        data@.len() >= 0x20,
    ensures
        name@ == status_name(data@),
{
    read_field_name(&data[0x0b..0x20])
}

/// The deck status in a status packet.
pub fn read_status_deck(data: &[u8]) -> (status: DeckStatus)
    requires
        data@.len() >= 0x7c,
    ensures
        status == status_deck(data@),
{
    let play_mode = data[0x7b];
    let flags: u8 = if data.len() > 0x89 {
        data[0x89]
    } else {
        0
    };
    assert(0u8 & 0x40 == 0 && 0u8 & 0x20 == 0 && 0u8 & 0x08 == 0) by (bit_vector);
    let track_id = read_be32(data, 0x2c);
    let bpm = if data.len() > 0x93 {
        let raw = read_be16(data, 0x92);
        if raw > 0 && raw < 30000 {
            Some(raw)
        } else {
            None
        }
    } else {
        None
    };
    DeckStatus {
        track_loaded: track_id != 0,
        is_playing: flags & 0x40 != 0,
        is_looping: play_mode == 0x04 || play_mode == 0x12,
        is_master: flags & 0x20 != 0,
        is_on_air: flags & 0x08 != 0,
        bpm,
        track_device_id: data[0x28],
        track_slot: data[0x29],
        track_id,
        beat_in_measure: if data.len() > 0xa6 {
            data[0xa6]
        } else {
            0
        },
    }
}

/// Whether the mixer channel of player `id` is on air in `mask`.
pub fn read_channel_on_air(mask: u8, id: u8) -> (on_air: bool)
    requires
        1 <= id <= 4,
    ensures
        on_air == channel_on_air(mask, id),
{
    mask & (1u8 << (id - 1)) != 0
}

} // verus!
