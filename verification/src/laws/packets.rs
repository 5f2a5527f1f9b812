//! What the bytes of a packet mean, position by position.

use crate::bytes::{be16_value, be32, be32_value, lemma_nul_offset, nul_offset, until_nul};
use crate::model::DeckStatus;
use crate::packet::{
    channel_on_air, is_player_id, keep_alive_id, keep_alive_name, keep_alive_packet, packet_type,
    status_deck, status_id, status_name, status_packet, PRODJLINK_HEADER,
};
use crate::laws::text::lemma_trimmed_back;
use crate::text::{is_white_space, lossy_utf8, trimmed_space};
use vstd::prelude::*;
use vstd::utf8::{encode_utf8, valid_utf8};

verus! {

/// Big-endian numbers: the first byte weighs most.
pub proof fn law_big_endian(value: u32, four: Seq<u8>, two: Seq<u8>)
    requires
        four.len() == 4,
        two.len() == 2,
    ensures
        be32(value).len() == 4,
        be32(value)[0] * 16_777_216 + be32(value)[1] * 65_536 + be32(value)[2] * 256 + be32(
            value,
        )[3] == value,
        be32_value(four) == four[0] * 16_777_216 + four[1] * 65_536 + four[2] * 256 + four[3],
        be16_value(two) == two[0] * 256 + two[1],
{
}

/// A NUL-terminated field: the bytes up to the first zero byte, or all of them.
pub proof fn law_terminated_field(field: Seq<u8>)
    ensures
        until_nul(field).len() <= field.len(),
        forall|i: int|
            0 <= i < until_nul(field).len() ==> #[trigger] until_nul(field)[i] == field[i]
                && field[i] != 0,
        until_nul(field).len() < field.len() ==> field[until_nul(field).len() as int] == 0,
{
    lemma_nul_offset(field);
}

/// A packet of the link starts with ten bytes, always the same, and the eleventh is its
/// type.
pub proof fn law_packet_type(data: Seq<u8>)
    ensures
        packet_type(data) is Some <==> data.len() >= 11 && data[0] == 0x51 && data[1] == 0x73
            && data[2] == 0x70 && data[3] == 0x74 && data[4] == 0x31 && data[5] == 0x57 && data[6]
            == 0x6d && data[7] == 0x4a && data[8] == 0x4f && data[9] == 0x4c,
        packet_type(data) matches Some(kind) ==> kind == data[10],
{
    let header = PRODJLINK_HEADER@;
    assert(header =~= seq![0x51u8, 0x73, 0x70, 0x74, 0x31, 0x57, 0x6d, 0x4a, 0x4f, 0x4c]);
    if data.len() >= 11 {
        let head = data.take(10);
        assert(head[0] == data[0] && head[1] == data[1] && head[2] == data[2] && head[3] == data[3]
            && head[4] == data[4] && head[5] == data[5] && head[6] == data[6] && head[7] == data[7]
            && head[8] == data[8] && head[9] == data[9]);
        if data[0] == 0x51 && data[1] == 0x73 && data[2] == 0x70 && data[3] == 0x74 && data[4]
            == 0x31 && data[5] == 0x57 && data[6] == 0x6d && data[7] == 0x4a && data[8] == 0x4f
            && data[9] == 0x4c {
            assert(head =~= header);
        }
    }
}

/// A keep-alive packet has type 6 and 54 bytes or more, and announces the number in its
/// byte 36, if that is 1 to 6. Nothing else announces anybody.
pub proof fn law_keep_alive_number(data: Seq<u8>)
    ensures
        keep_alive_id(data) is Some <==> packet_type(data) == Some(6u8) && data.len() >= 54 && 1
            <= data[36] <= 6,
        keep_alive_id(data) matches Some(id) ==> id == data[36],
{
}

/// A status packet has type 10, and tells the number in its byte 33, if that is 1 to 6.
pub proof fn law_status_number(data: Seq<u8>)
    ensures
        status_id(data) is Some <==> packet_type(data) == Some(10u8) && data.len() >= 34 && 1
            <= data[33] <= 6,
        status_id(data) matches Some(id) ==> id == data[33],
{
}

/// A flag is one bit of a byte.
proof fn lemma_bits(byte: u8)
    ensures
        byte & 0x40 != 0 <==> byte / 64 % 2 == 1,
        byte & 0x20 != 0 <==> byte / 32 % 2 == 1,
        byte & 0x08 != 0 <==> byte / 8 % 2 == 1,
        byte & (1u8 << 0u8) != 0 <==> byte % 2 == 1,
        byte & (1u8 << 1u8) != 0 <==> byte / 2 % 2 == 1,
        byte & (1u8 << 2u8) != 0 <==> byte / 4 % 2 == 1,
        byte & (1u8 << 3u8) != 0 <==> byte / 8 % 2 == 1,
{
    assert((byte & 0x40 != 0 <==> byte / 64 % 2 == 1) && (byte & 0x20 != 0 <==> byte / 32 % 2 == 1)
        && (byte & 0x08 != 0 <==> byte / 8 % 2 == 1)) by (bit_vector);
    assert((byte & (1u8 << 0u8) != 0 <==> byte % 2 == 1) && (byte & (1u8 << 1u8) != 0 <==> byte / 2
        % 2 == 1) && (byte & (1u8 << 2u8) != 0 <==> byte / 4 % 2 == 1) && (byte & (1u8 << 3u8) != 0
        <==> byte / 8 % 2 == 1)) by (bit_vector);
}

/// What a status packet tells of a deck, byte by byte. The tempo depends on its two bytes
/// alone, each flag on its one bit, the loop on the play mode, and the track on its own
/// bytes, whatever the rest of the packet is.
pub proof fn law_status_bytes(data: Seq<u8>)
    requires
        data.len() >= 0x7c,
    ensures
        ({
            let deck = status_deck(data);
            let tempo = data[0x92] * 256 + data[0x93];
            let track = data[0x2c] * 16_777_216 + data[0x2d] * 65_536 + data[0x2e] * 256
                + data[0x2f];
            &&& data.len() > 0x93 && 0 < tempo < 30_000 ==> deck.bpm is Some && deck.bpm.unwrap()
                == tempo
            &&& data.len() <= 0x93 || tempo == 0 || tempo >= 30_000 ==> deck.bpm is None
            &&& deck.is_playing <==> data.len() > 0x89 && data[0x89] / 64 % 2 == 1
            &&& deck.is_master <==> data.len() > 0x89 && data[0x89] / 32 % 2 == 1
            &&& deck.is_on_air <==> data.len() > 0x89 && data[0x89] / 8 % 2 == 1
            &&& deck.is_looping <==> data[0x7b] == 4 || data[0x7b] == 18
            &&& deck.track_device_id == data[0x28]
            &&& deck.track_slot == data[0x29]
            &&& deck.track_id == track
            &&& deck.track_loaded <==> track != 0
            &&& data.len() > 0xa6 ==> deck.beat_in_measure == data[0xa6]
            &&& data.len() <= 0xa6 ==> deck.beat_in_measure == 0
        }),
{
    if data.len() > 0x89 {
        lemma_bits(data[0x89]);
    }
    if data.len() > 0x93 {
        let pair = data.subrange(0x92, 0x94);
        assert(pair[0] == data[0x92] && pair[1] == data[0x93]);
    }
    let four = data.subrange(0x2c, 0x30);
    assert(four[0] == data[0x2c] && four[1] == data[0x2d] && four[2] == data[0x2e] && four[3]
        == data[0x2f]);
}

/// A deck that has not reported has no track, no tempo and no flags.
pub proof fn law_unknown_deck()
    ensures
        ({
            let deck = DeckStatus::unknown();
            &&& !deck.track_loaded && deck.track_id == 0 && deck.track_device_id == 0
                && deck.track_slot == 0
            &&& !deck.is_playing && !deck.is_looping && !deck.is_master && !deck.is_on_air
            &&& deck.bpm is None && deck.beat_in_measure == 0
        }),
{
}

/// The key of a deck's track names the player that holds the medium, the slot and the id.
pub proof fn law_track_key(deck: DeckStatus)
    ensures
        deck.spec_track_key().device_id == deck.track_device_id,
        deck.spec_track_key().slot == deck.track_slot,
        deck.spec_track_key().track_id == deck.track_id,
{
}

/// A mixer has a bit for each of its four channels, the lowest for the first.
pub proof fn law_mixer_channels(mask: u8)
    ensures
        channel_on_air(mask, 1) <==> mask % 2 == 1,
        channel_on_air(mask, 2) <==> mask / 2 % 2 == 1,
        channel_on_air(mask, 3) <==> mask / 4 % 2 == 1,
        channel_on_air(mask, 4) <==> mask / 8 % 2 == 1,
{
    lemma_bits(mask);
}

/// Players have the numbers 1 to 6.
pub proof fn law_player_numbers(id: u8)
    ensures
        is_player_id(id) <==> id == 1 || id == 2 || id == 3 || id == 4 || id == 5 || id == 6,
{
}

/// The name in a status packet stands from byte 11 on, in 21 bytes at most, up to a NUL. It
/// is read without the white space around it.
pub proof fn law_status_name(
    data: Seq<u8>,
    before: Seq<char>,
    name: Seq<char>,
    after: Seq<char>,
)
    requires
        data.len() >= 0x20,
        forall|i: int| 0 <= i < before.len() ==> is_white_space(#[trigger] before[i]),
        forall|i: int| 0 <= i < after.len() ==> is_white_space(#[trigger] after[i]),
        name.len() > 0 ==> !is_white_space(name.first()) && !is_white_space(name.last()),
        ({
            let bytes = encode_utf8(before + name + after);
            &&& bytes.len() <= 21
            &&& data.subrange(11, 11int + bytes.len()) == bytes
            &&& forall|i: int| 0 <= i < bytes.len() ==> #[trigger] bytes[i] != 0
            &&& bytes.len() < 21 ==> data[11int + bytes.len()] == 0
        }),
    ensures
        status_name(data) == name,
{
    let bytes = encode_utf8(before + name + after);
    let field = data.subrange(11, 32);
    assert(field.take(bytes.len() as int) =~= data.subrange(11, 11int + bytes.len()));
    lemma_field_name(field, before, name, after);
}

/// The name in a keep-alive packet stands from byte 12 on, in 20 bytes at most, up to a
/// NUL. It is read without the white space around it.
pub proof fn law_keep_alive_name(
    data: Seq<u8>,
    before: Seq<char>,
    name: Seq<char>,
    after: Seq<char>,
)
    requires
        data.len() >= 0x20,
        forall|i: int| 0 <= i < before.len() ==> is_white_space(#[trigger] before[i]),
        forall|i: int| 0 <= i < after.len() ==> is_white_space(#[trigger] after[i]),
        name.len() > 0 ==> !is_white_space(name.first()) && !is_white_space(name.last()),
        ({
            let bytes = encode_utf8(before + name + after);
            &&& bytes.len() <= 20
            &&& data.subrange(12, 12int + bytes.len()) == bytes
            &&& forall|i: int| 0 <= i < bytes.len() ==> #[trigger] bytes[i] != 0
            &&& bytes.len() < 20 ==> data[12int + bytes.len()] == 0
        }),
    ensures
        keep_alive_name(data) == name,
{
    let bytes = encode_utf8(before + name + after);
    let field = data.subrange(12, 32);
    assert(field.take(bytes.len() as int) =~= data.subrange(12, 12int + bytes.len()));
    lemma_field_name(field, before, name, after);
}

/// The name in a field.
proof fn lemma_field_name(
    field: Seq<u8>,
    before: Seq<char>,
    name: Seq<char>,
    after: Seq<char>,
)
    requires
        forall|i: int| 0 <= i < before.len() ==> is_white_space(#[trigger] before[i]),
        forall|i: int| 0 <= i < after.len() ==> is_white_space(#[trigger] after[i]),
        name.len() > 0 ==> !is_white_space(name.first()) && !is_white_space(name.last()),
        ({
            let bytes = encode_utf8(before + name + after);
            &&& bytes.len() <= field.len()
            &&& field.take(bytes.len() as int) == bytes
            &&& forall|i: int| 0 <= i < bytes.len() ==> #[trigger] bytes[i] != 0
            &&& bytes.len() < field.len() ==> field[bytes.len() as int] == 0
        }),
    ensures
        crate::packet::field_name(field) == name,
{
    let text = before + name + after;
    let bytes = encode_utf8(text);
    assert forall|i: int| 0 <= i < bytes.len() implies field[i] != 0 by {
        assert(field.take(bytes.len() as int)[i] == bytes[i]);
    }
    crate::bytes::lemma_nul_offset_unique(field, bytes.len() as int);
    assert(until_nul(field) == bytes);
    vstd::utf8::encode_utf8_valid_utf8(text);
    vstd::utf8::encode_utf8_decode_utf8(text);
    lemma_trimmed_back(before, name, after, |c: char| is_white_space(c));
}

/// A name that is not UTF-8 is what lossy decoding makes of it, without the white space
/// around it.
pub proof fn law_name_that_is_not_utf8(data: Seq<u8>, end: int)
    requires
        data.len() >= 0x20,
        11 <= end <= 32,
        forall|i: int| 12 <= i < end ==> #[trigger] data[i] != 0,
        end < 32 ==> data[end] == 0,
    ensures
        data[11] != 0 && !valid_utf8(data.subrange(11, end)) ==> status_name(data)
            == trimmed_space(lossy_utf8(data.subrange(11, end))),
        12 <= end && !valid_utf8(data.subrange(12, end)) ==> keep_alive_name(data)
            == trimmed_space(lossy_utf8(data.subrange(12, end))),
{
    if data[11] != 0 && 11 <= end {
        let field = data.subrange(11, 32);
        assert forall|i: int| 0 <= i < end - 11 implies field[i] != 0 by {
            assert(field[i] == data[11 + i]);
        }
        crate::bytes::lemma_nul_offset_unique(field, end - 11);
        assert(until_nul(field) =~= data.subrange(11, end));
    }
    if 12 <= end {
        let field = data.subrange(12, 32);
        assert forall|i: int| 0 <= i < end - 12 implies field[i] != 0 by {
            assert(field[i] == data[12 + i]);
        }
        crate::bytes::lemma_nul_offset_unique(field, end - 12);
        assert(until_nul(field) =~= data.subrange(12, end));
    }
}

/// A name depends on its field alone, and there on what comes before the first NUL.
pub proof fn law_name_depends_on_its_field(one: Seq<u8>, other: Seq<u8>, end: int)
    requires
        one.len() >= 0x20,
        other.len() >= 0x20,
    ensures
        11 <= end <= 32 && one.subrange(11, end) == other.subrange(11, end) && (end == 32 || (
        one[end] == 0 && other[end] == 0)) ==> status_name(one) == status_name(other),
        12 <= end <= 32 && one.subrange(12, end) == other.subrange(12, end) && (end == 32 || (
        one[end] == 0 && other[end] == 0)) ==> keep_alive_name(one) == keep_alive_name(other),
{
    if 11 <= end <= 32 && one.subrange(11, end) == other.subrange(11, end) && (end == 32 || (
    one[end] == 0 && other[end] == 0)) {
        let first = one.subrange(11, 32);
        let second = other.subrange(11, 32);
        assert(first.take(end - 11) =~= one.subrange(11, end));
        assert(second.take(end - 11) =~= other.subrange(11, end));
        lemma_same_until_nul(first, second, end - 11);
    }
    if 12 <= end <= 32 && one.subrange(12, end) == other.subrange(12, end) && (end == 32 || (
    one[end] == 0 && other[end] == 0)) {
        let first = one.subrange(12, 32);
        let second = other.subrange(12, 32);
        assert(first.take(end - 12) =~= one.subrange(12, end));
        assert(second.take(end - 12) =~= other.subrange(12, end));
        lemma_same_until_nul(first, second, end - 12);
    }
}

/// Fields that agree up to a NUL, or to the end, have the same text.
proof fn lemma_same_until_nul(one: Seq<u8>, other: Seq<u8>, n: int)
    requires
        one.len() == other.len(),
        0 <= n <= one.len(),
        one.take(n) == other.take(n),
        n < one.len() ==> one[n] == 0 && other[n] == 0,
    ensures
        until_nul(one) == until_nul(other),
{
    assert forall|i: int| 0 <= i < n implies one[i] == other[i] by {
        assert(one.take(n)[i] == one[i]);
        assert(other.take(n)[i] == other[i]);
    }
    lemma_nul_offset(one);
    lemma_nul_offset(other);
    let k = nul_offset(one) as int;
    assert(k <= n) by {
        if k > n {
            assert(one[n] != 0);
        }
    }
    assert forall|i: int| 0 <= i < k implies other[i] != 0 by {
        assert(one[i] != 0);
    }
    crate::bytes::lemma_nul_offset_unique(other, k);
    assert(until_nul(one) =~= until_nul(other));
}

/// Our status packet, byte by byte.
pub proof fn law_own_status_bytes(device_id: u8, name: Seq<u8>, packet_counter: u8)
    ensures
        ({
            let packet = status_packet(device_id, name, packet_counter);
            &&& packet.len() == 212
            &&& packet_type(packet) == Some(10u8)
            &&& forall|i: int|
                0 <= i < 20 ==> #[trigger] packet[11 + i] == if i < name.len() {
                    name[i]
                } else {
                    0
                }
            &&& packet[31] == 0
            &&& packet[32] == 1
            &&& packet[33] == device_id
            &&& packet[34] == 0
            &&& packet[35] == 212
            &&& packet[200] == packet_counter
            &&& forall|i: int| 36 <= i < 212 && i != 200 ==> #[trigger] packet[i] == 0
        }),
{
    let packet = status_packet(device_id, name, packet_counter);
    assert(packet.len() == 212);
    assert(packet.take(10) =~= PRODJLINK_HEADER@);
}

/// Our keep-alive packet, byte by byte.
pub proof fn law_own_keep_alive_bytes(
    device_id: u8,
    name: Seq<u8>,
    mac: Seq<u8>,
    ip: Seq<u8>,
    peer_count: u8,
)
    requires
        mac.len() == 6,
        ip.len() == 4,
    ensures
        ({
            let packet = keep_alive_packet(device_id, name, mac, ip, peer_count);
            &&& packet.len() == 54
            &&& packet_type(packet) == Some(6u8)
            &&& packet[11] == 0 && packet[12] == 0 && packet[13] == 16
            &&& forall|i: int|
                0 <= i < 18 ==> #[trigger] packet[14 + i] == if i < name.len() {
                    name[i]
                } else {
                    0
                }
            &&& packet[32] == 1 && packet[33] == 2 && packet[34] == 0 && packet[35] == 54
            &&& packet[36] == device_id
            &&& packet[37] == 1
            &&& forall|i: int| 0 <= i < 6 ==> #[trigger] packet[38 + i] == mac[i]
            &&& forall|i: int| 0 <= i < 4 ==> #[trigger] packet[44 + i] == ip[i]
            &&& packet[48] == 48
            &&& packet[49] == peer_count
            &&& packet[50] == 0 && packet[51] == 0 && packet[52] == 1 && packet[53] == 1
        }),
{
    let packet = keep_alive_packet(device_id, name, mac, ip, peer_count);
    assert(packet.len() == 54);
    assert(packet.take(10) =~= PRODJLINK_HEADER@);
}

} // verus!
