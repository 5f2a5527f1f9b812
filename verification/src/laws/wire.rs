//! What is written to the wire can be read from it.

use crate::bytes::{
    be32, be32_value, law_be32_reads_back, lemma_nul_offset_unique, padded, until_nul, zeros,
};
use crate::dbserver::{
    field_text, is_string_field, menu_field, message_head, message_kind, message_txid,
    metadata_in, metadata_request, number_field, render_request, setup_request, string_limit,
    string_size, strings_from, strings_in_packets, utf16_units, LengthUnit, DB_MAGIC,
};
use crate::model::{DeckStatus, MetadataView};
use crate::packet::{
    is_player_id, keep_alive_id, keep_alive_packet, packet_type, status_deck, status_id,
    status_name, status_packet, PACKET_TYPE_CDJ_STATUS, PACKET_TYPE_KEEP_ALIVE, PRODJLINK_HEADER,
};
use crate::text::{is_white_space, trimmed, trimmed_nul, trimmed_space, utf16_decoded};
use vstd::prelude::*;
use vstd::utf8::encode_utf8;

verus! {

/// Our status packet is one of 212 bytes that tells our number, and a deck without a
/// track: nothing plays, nothing is master or on air, and there is no tempo.
pub proof fn law_status_packet_reads_back(device_id: u8, name: Seq<u8>, packet_counter: u8)
    ensures
        ({
            let packet = status_packet(device_id, name, packet_counter);
            &&& packet.len() == 212
            &&& packet_type(packet) == Some(PACKET_TYPE_CDJ_STATUS)
            &&& packet[0x21] == device_id
            &&& is_player_id(device_id) ==> status_id(packet) == Some(device_id)
            &&& status_deck(packet) == DeckStatus::unknown()
            &&& packet[0xc8] == packet_counter
        }),
{
    let packet = status_packet(device_id, name, packet_counter);
    assert(packet.len() == 212);
    assert(packet.take(10) =~= PRODJLINK_HEADER@);
    assert(packet[0x0a] == PACKET_TYPE_CDJ_STATUS);
    assert forall|i: int| 0x24 <= i < 0xc8 implies packet[i] == 0 by {}
    assert(packet.subrange(0x92, 0x94) =~= seq![0u8, 0u8]);
    assert(packet.subrange(0x2c, 0x30) =~= seq![0u8, 0u8, 0u8, 0u8]);
    assert(0u8 & 0x40 == 0 && 0u8 & 0x20 == 0 && 0u8 & 0x08 == 0) by (bit_vector);
}

/// A name of at most 20 bytes without NUL characters can be read from our status packet,
/// but for white space around it.
pub proof fn law_status_name_reads_back(device_id: u8, name: Seq<char>, packet_counter: u8)
    requires
        encode_utf8(name).len() <= 20,
        !encode_utf8(name).contains(0u8),
    ensures
        status_name(status_packet(device_id, encode_utf8(name), packet_counter))
            == trimmed_space(name),
{
    let bytes = encode_utf8(name);
    let packet = status_packet(device_id, bytes, packet_counter);
    let field = packet.subrange(0x0b, 0x20);
    assert(field =~= bytes + zeros((21 - bytes.len()) as nat));
    assert forall|i: int| 0 <= i < bytes.len() implies field[i] != 0 by {
        assert(bytes.contains(bytes[i]));
    }
    lemma_nul_offset_unique(field, bytes.len() as int);
    assert(until_nul(field) =~= bytes);
    vstd::utf8::encode_utf8_valid_utf8(name);
    vstd::utf8::encode_utf8_decode_utf8(name);
}

/// Our keep-alive packet is one of 54 bytes that announces our number. It names nobody
/// where players put their name: our name stands two bytes further on.
pub proof fn law_keep_alive_packet_reads_back(
    device_id: u8,
    name: Seq<u8>,
    mac: Seq<u8>,
    ip: Seq<u8>,
    peer_count: u8,
)
    requires
        mac.len() == 6,
        ip.len() == 4,
    ensures
        ({
            let packet = keep_alive_packet(device_id, name, mac, ip, peer_count);
            &&& packet.len() == 54
            &&& packet_type(packet) == Some(PACKET_TYPE_KEEP_ALIVE)
            &&& packet[0x24] == device_id
            &&& is_player_id(device_id) ==> keep_alive_id(packet) == Some(device_id)
            &&& packet.subrange(0x0e, 0x20) == padded(name, 18, 18)
            &&& packet.subrange(0x26, 0x2c) == mac
            &&& packet.subrange(0x2c, 0x30) == ip
            &&& packet[0x31] == peer_count
            &&& until_nul(packet.subrange(0x0c, 0x20)) == Seq::<u8>::empty()
        }),
{
    let packet = keep_alive_packet(device_id, name, mac, ip, peer_count);
    assert(packet.len() == 54);
    assert(packet.take(10) =~= PRODJLINK_HEADER@);
    assert(packet[0x0a] == PACKET_TYPE_KEEP_ALIVE);
    assert(packet.subrange(0x0e, 0x20) =~= padded(name, 18, 18));
    assert(packet.subrange(0x26, 0x2c) =~= mac);
    assert(packet.subrange(0x2c, 0x30) =~= ip);
    let field = packet.subrange(0x0c, 0x20);
    assert(field[0] == packet[0x0c] == 0);
    lemma_nul_offset_unique(field, 0);
    assert(until_nul(field) =~= Seq::<u8>::empty());
}

/// The head of a request holds its transaction id and its type where those of replies
/// are read, and as many argument types as there are arguments.
pub proof fn law_message_head_reads_back(txid: u32, kind: u16, argc: u8, args: Seq<u8>)
    ensures
        ({
            let message = message_head(txid, kind, argc) + args;
            &&& message.subrange(1, 5) == DB_MAGIC@
            &&& message_txid(message) == txid
            &&& message_kind(message) == kind
            &&& message[14] == argc
            &&& be32_value(message.subrange(16, 20)) == argc
            &&& message.skip(20 + argc) == args
        }),
{
    let head = message_head(txid, kind, argc);
    let message = head + args;
    assert(head.len() == 20 + argc);
    assert(message.subrange(1, 5) =~= DB_MAGIC@);
    assert(message.subrange(6, 10) =~= be32(txid));
    law_be32_reads_back(txid);
    assert(message.subrange(11, 13) =~= seq![(kind / 0x100) as u8, (kind % 0x100) as u8]);
    assert(message.subrange(16, 20) =~= be32(argc as u32));
    law_be32_reads_back(argc as u32);
    assert(message.skip(20 + argc) =~= args);
}

/// The setup request has the transaction id that the protocol asks for, type 0, and our
/// number as its one argument.
pub proof fn law_setup_request_reads_back(device_id: u8)
    ensures
        message_txid(setup_request(device_id)) == 0xffff_fffe,
        message_kind(setup_request(device_id)) == 0,
        setup_request(device_id)[14] == 1,
        setup_request(device_id).skip(21) == number_field(device_id as u32),
{
    law_message_head_reads_back(0xffff_fffe, 0, 1, number_field(device_id as u32));
}

/// The metadata request has type 0x2002 and two arguments: the menu field with our own
/// number, and the track id.
pub proof fn law_metadata_request_reads_back(device_id: u8, slot: u8, track_id: u32)
    ensures
        message_txid(metadata_request(device_id, slot, track_id)) == 2,
        message_kind(metadata_request(device_id, slot, track_id)) == 0x2002,
        metadata_request(device_id, slot, track_id)[14] == 2,
        metadata_request(device_id, slot, track_id).skip(22) == menu_field(device_id, slot)
            + number_field(track_id),
{
    let args = menu_field(device_id, slot) + number_field(track_id);
    law_message_head_reads_back(2, 0x2002, 2, args);
    assert(metadata_request(device_id, slot, track_id) =~= message_head(2, 0x2002, 2) + args);
}

/// The render request has the given transaction id, type 0x3000 and six arguments: the
/// menu field, the offset 0, at most 64 rows, 0, the size of the menu, and 0.
pub proof fn law_render_request_reads_back(
    device_id: u8,
    slot: u8,
    count: u32,
    total: u32,
    txid: u32,
)
    ensures
        message_txid(render_request(device_id, slot, count, total, txid)) == txid,
        message_kind(render_request(device_id, slot, count, total, txid)) == 0x3000,
        render_request(device_id, slot, count, total, txid)[14] == 6,
        render_request(device_id, slot, count, total, txid).skip(26) == menu_field(
            device_id,
            slot,
        ) + number_field(0) + number_field(
            if count <= 64 {
                count
            } else {
                64
            },
        ) + number_field(0) + number_field(total) + number_field(0),
{
    let rows = if count <= 64 { count } else { 64 };
    let menu = menu_field(device_id, slot);
    let args = menu + number_field(0) + number_field(rows) + number_field(0) + number_field(total)
        + number_field(0);
    let head = message_head(txid, 0x3000, 6);
    lemma_append_six(
        head,
        menu,
        number_field(0),
        number_field(rows),
        number_field(0),
        number_field(total),
        number_field(0),
    );
    law_message_head_reads_back(txid, 0x3000, 6, args);
}

/// Appending one by one is appending all at once.
proof fn lemma_append_six(
    head: Seq<u8>,
    a: Seq<u8>,
    b: Seq<u8>,
    c: Seq<u8>,
    d: Seq<u8>,
    e: Seq<u8>,
    f: Seq<u8>,
)
    ensures
        head + a + b + c + d + e + f == head + (a + b + c + d + e + f),
{
    assert(head + a + b + c + d + e + f =~= head + (a + b + c + d + e + f));
}

/// UTF-16 code units as big-endian bytes.
pub open spec fn utf16_bytes(units: Seq<u16>) -> Seq<u8> {
    Seq::new(
        2 * units.len(),
        |i: int|
            if i % 2 == 0 {
                (units[i / 2] / 0x100) as u8
            } else {
                (units[i / 2] % 0x100) as u8
            },
    )
}

/// A string field with these code units, its length counted as `unit` says.
pub open spec fn string_field(unit: LengthUnit, units: Seq<u16>) -> Seq<u8> {
    let length = match unit {
        LengthUnit::Bytes => 2 * units.len(),
        LengthUnit::Units => units.len(),
    };
    seq![0x26u8] + be32(length as u32) + utf16_bytes(units)
}

/// Whether `units` fit in a string field: some, but not too many.
pub open spec fn fits_field(unit: LengthUnit, units: Seq<u16>) -> bool {
    0 < units.len() && 2 * units.len() < string_limit(unit)
}

/// Code units written as bytes read back.
pub proof fn law_utf16_bytes_read_back(units: Seq<u16>)
    ensures
        utf16_units(utf16_bytes(units)) == units,
{
    let bytes = utf16_bytes(units);
    assert forall|k: int| 0 <= k < units.len() implies utf16_units(bytes)[k] == units[k] by {
        assert(bytes[2 * k] == (units[k] / 0x100) as u8);
        assert(bytes[2 * k + 1] == (units[k] % 0x100) as u8);
    }
    assert(utf16_units(bytes) =~= units);
}

/// The UTF-16 code units for `text`.
pub open spec fn utf16_encoded(text: Seq<char>) -> Seq<u16>
    decreases text.len(),
{
    if text.len() == 0 {
        Seq::empty()
    } else {
        let c = text[0] as int;
        let first = if c < 0x1_0000 {
            seq![c as u16]
        } else {
            seq![
                (0xd800 + (c - 0x1_0000) / 0x400) as u16,
                (0xdc00 + (c - 0x1_0000) % 0x400) as u16,
            ]
        };
        first + utf16_encoded(text.drop_first())
    }
}

/// Text in UTF-16 reads back, also where more text follows.
pub proof fn law_utf16_reads_back(text: Seq<char>, more: Seq<u16>)
    ensures
        utf16_decoded(utf16_encoded(text) + more) == match utf16_decoded(more) {
            Some(rest) => Some(text + rest),
            None => None,
        },
        utf16_decoded(utf16_encoded(text)) == Some(text),
    decreases text.len(),
{
    let units = utf16_encoded(text) + more;
    let none = Seq::<u16>::empty();
    assert(utf16_encoded(text) + none =~= utf16_encoded(text));
    if text.len() == 0 {
        assert(units =~= more);
        assert(utf16_encoded(text) =~= none);
        assert(utf16_decoded(none) == Some(text)) by {
            assert(text =~= Seq::<char>::empty());
        }
        match utf16_decoded(more) {
            Some(rest) => {
                assert(text + rest =~= rest);
            },
            None => {},
        }
    } else {
        let tail = text.drop_first();
        law_utf16_reads_back(tail, more);
        lemma_utf16_first(text, more);
        lemma_utf16_first(text, none);
        assert(utf16_encoded(tail) + none =~= utf16_encoded(tail));
        assert(seq![text[0]] + tail =~= text);
        match utf16_decoded(more) {
            Some(rest) => {
                assert(seq![text[0]] + (tail + rest) =~= text + rest);
            },
            None => {},
        }
    }
}

/// A character is a code point that is no surrogate.
proof fn lemma_char_range(c: char)
    ensures
        0 <= c as int <= 0x10_ffff,
        !(0xd800 <= c as int <= 0xdfff),
{
}

/// Decoding starts with the first character.
proof fn lemma_utf16_first(text: Seq<char>, more: Seq<u16>)
    requires
        text.len() > 0,
    ensures
        utf16_decoded(utf16_encoded(text) + more) == match utf16_decoded(
            utf16_encoded(text.drop_first()) + more,
        ) {
            Some(rest) => Some(seq![text[0]] + rest),
            None => None,
        },
{
    let units = utf16_encoded(text) + more;
    let next = utf16_encoded(text.drop_first()) + more;
    let c = text[0] as int;
    lemma_char_range(text[0]);
    if c < 0x1_0000 {
        assert(units[0] == c);
        assert(units.skip(1) =~= next);
        assert(units[0] as char == text[0]);
    } else {
        assert(units[0] == 0xd800 + (c - 0x1_0000) / 0x400);
        assert(units[1] == 0xdc00 + (c - 0x1_0000) % 0x400);
        assert(units.skip(2) =~= next);
        assert(0x1_0000 + (units[0] - 0xd800) * 0x400 + (units[1] - 0xdc00) == c);
    }
}

/// Text that neither starts nor ends with a NUL character or white space.
pub open spec fn is_trimmed(text: Seq<char>) -> bool {
    text.len() > 0 && !is_white_space(text.first()) && !is_white_space(text.last())
        && text.first() != '\0' && text.last() != '\0'
}

/// The text of a string field that ends with a NUL character, as players send it, is the
/// text before that character.
pub proof fn law_terminated_text_reads_back(text: Seq<char>)
    requires
        is_trimmed(text),
    ensures
        field_text(utf16_bytes(utf16_encoded(text).push(0))) == Some(text),
        field_text(utf16_bytes(utf16_encoded(text))) == Some(text),
{
    let end = seq!['\0'];
    assert(utf16_encoded(end) =~= seq![0u16]) by {
        reveal_with_fuel(utf16_encoded, 2);
    }
    law_utf16_reads_back(end, Seq::empty());
    law_utf16_reads_back(text, seq![0u16]);
    let units = utf16_encoded(text).push(0);
    assert(units =~= utf16_encoded(text) + seq![0u16]);
    law_utf16_bytes_read_back(units);
    law_utf16_bytes_read_back(utf16_encoded(text));
    let full = text + end;
    assert(full.first() == text.first() && full.last() == '\0');
    assert(full.drop_last() =~= text);
    assert(trimmed_nul(full) == text) by {
        reveal_with_fuel(trimmed, 3);
    }
    assert(trimmed_nul(text) == text);
    assert(trimmed_space(text) == text);
}

/// Where scanning has come to `i`, what came before no longer matters.
proof fn lemma_strings_shift(unit: LengthUnit, data: Seq<u8>, at: int, i: int)
    requires
        0 <= at <= i,
        at <= data.len(),
    ensures
        strings_from(unit, data, i) == strings_from(unit, data.skip(at), i - at),
    decreases data.len() - i,
{
    let rest = data.skip(at);
    let j = i - at;
    if i + 6 < data.len() {
        assert(data.subrange(i + 1, i + 5) =~= rest.subrange(j + 1, j + 5));
        assert(data[i] == rest[j]);
        assert(string_size(unit, data, i) == string_size(unit, rest, j));
        assert(is_string_field(unit, data, i) == is_string_field(unit, rest, j));
        if is_string_field(unit, data, i) {
            let size = string_size(unit, data, i);
            assert(data.subrange(i + 5, i + 5 + size) =~= rest.subrange(j + 5, j + 5 + size));
            lemma_strings_shift(unit, data, at, i + 5 + size);
        } else {
            lemma_strings_shift(unit, data, at, i + 1);
        }
    }
}

/// Bytes other than 0x26 start no string field, and are passed over.
proof fn lemma_strings_skip(unit: LengthUnit, data: Seq<u8>, from: int, to: int)
    requires
        0 <= from <= to,
        to + 6 < data.len(),
        forall|i: int| from <= i < to ==> data[i] != 0x26,
    ensures
        strings_from(unit, data, from) == strings_from(unit, data, to),
    decreases to - from,
{
    if from < to {
        lemma_strings_skip(unit, data, from + 1, to);
    }
}

/// A string field that follows bytes other than 0x26 is found, and scanning goes on
/// behind it: its text, if it has one, comes before the texts of the rest.
pub proof fn law_string_field_is_found(
    unit: LengthUnit,
    before: Seq<u8>,
    units: Seq<u16>,
    rest: Seq<u8>,
)
    requires
        !before.contains(0x26u8),
        fits_field(unit, units),
    ensures
        strings_from(unit, before + string_field(unit, units) + rest, 0) == match field_text(
            utf16_bytes(units),
        ) {
            Some(text) => seq![text] + strings_from(unit, rest, 0),
            None => strings_from(unit, rest, 0),
        },
{
    let field = string_field(unit, units);
    let data = before + field + rest;
    let at = before.len() as int;
    let body = utf16_bytes(units);
    assert forall|i: int| 0 <= i < at implies data[i] != 0x26 by {
        assert(before.contains(before[i]));
    }
    assert(field.len() == 5 + body.len());
    lemma_strings_skip(unit, data, 0, at);
    let length = match unit {
        LengthUnit::Bytes => 2 * units.len(),
        LengthUnit::Units => units.len(),
    };
    assert(data.subrange(at + 1, at + 5) =~= be32(length as u32));
    law_be32_reads_back(length as u32);
    assert(string_size(unit, data, at) == body.len());
    assert(data[at] == 0x26);
    assert(is_string_field(unit, data, at));
    let end = at + 5 + body.len();
    assert(data.subrange(at + 5, end) =~= body);
    lemma_strings_shift(unit, data, end, end);
    assert(data.skip(end) =~= rest);
}

/// Rows with a title and an artist, each in a string field, give these as metadata,
/// whatever follows them. Other bytes may stand before each field, but 0x26.
pub proof fn law_title_and_artist_are_found(
    unit: LengthUnit,
    before: Seq<u8>,
    title: Seq<u16>,
    between: Seq<u8>,
    artist: Seq<u16>,
    rest: Seq<u8>,
    now: u64,
)
    requires
        !before.contains(0x26u8),
        !between.contains(0x26u8),
        fits_field(unit, title),
        fits_field(unit, artist),
        field_text(utf16_bytes(title)) is Some,
        field_text(utf16_bytes(artist)) is Some,
    ensures
        metadata_in(
            strings_from(
                unit,
                before + string_field(unit, title) + (between + string_field(unit, artist) + rest),
                0,
            ),
            now,
        ) == Some(
            MetadataView {
                title: field_text(utf16_bytes(title)).unwrap(),
                artist: field_text(utf16_bytes(artist)).unwrap(),
                album: None,
                duration: None,
                fetched_at: now,
            },
        ),
{
    law_string_field_is_found(unit, between, artist, rest);
    law_string_field_is_found(
        unit,
        before,
        title,
        between + string_field(unit, artist) + rest,
    );
}

/// Rows with a title alone have an unknown artist.
pub proof fn law_title_alone_is_found(
    unit: LengthUnit,
    before: Seq<u8>,
    title: Seq<u16>,
    rest: Seq<u8>,
    now: u64,
)
    requires
        !before.contains(0x26u8),
        !rest.contains(0x26u8),
        fits_field(unit, title),
        field_text(utf16_bytes(title)) is Some,
    ensures
        metadata_in(strings_from(unit, before + string_field(unit, title) + rest, 0), now) == Some(
            MetadataView {
                title: field_text(utf16_bytes(title)).unwrap(),
                artist: "Unknown Artist"@,
                album: None,
                duration: None,
                fetched_at: now,
            },
        ),
{
    law_string_field_is_found(unit, before, title, rest);
    law_no_field_no_strings(unit, rest, now);
}

/// Where the byte 0x26 does not occur there are no strings, hence no metadata.
pub proof fn law_no_field_no_strings(unit: LengthUnit, data: Seq<u8>, now: u64)
    requires
        !data.contains(0x26u8),
    ensures
        strings_from(unit, data, 0) == Seq::<Seq<char>>::empty(),
        metadata_in(strings_from(unit, data, 0), now) is None,
{
    if data.len() > 6 {
        let last = data.len() - 7;
        assert forall|i: int| 0 <= i < data.len() implies data[i] != 0x26 by {
            assert(data.contains(data[i]));
        }
        lemma_strings_skip(unit, data, 0, last);
        assert(data[last] != 0x26);
        reveal_with_fuel(strings_from, 2);
    }
}

/// No string that is found is empty.
pub proof fn law_strings_have_text(unit: LengthUnit, data: Seq<u8>, i: int)
    ensures
        forall|k: int|
            0 <= k < strings_from(unit, data, i).len() ==> (#[trigger] strings_from(
                unit,
                data,
                i,
            )[k]).len() > 0,
    decreases data.len() - i,
{
    let all = strings_from(unit, data, i);
    if 0 <= i && i + 6 < data.len() {
        let is_field = is_string_field(unit, data, i);
        let end = if is_field { i + 5 + string_size(unit, data, i) } else { i + 1 };
        law_strings_have_text(unit, data, end);
        let rest = strings_from(unit, data, end);
        let text = field_text(data.subrange(i + 5, end));
        assert forall|k: int| 0 <= k < all.len() implies (#[trigger] all[k]).len() > 0 by {
            if is_field && text is Some {
                assert(all == seq![text.unwrap()] + rest);
                if k > 0 {
                    assert(all[k] == rest[k - 1]);
                }
            } else {
                assert(all == rest);
                assert(rest[k].len() > 0);
            }
        }
    }
}

/// The texts of packets that follow come after those of the packets before.
pub proof fn law_later_packets_add_strings(packets: Seq<Seq<u8>>, more: Seq<Seq<u8>>)
    ensures
        strings_in_packets(packets + more) == strings_in_packets(packets) + strings_in_packets(
            more,
        ),
    decreases more.len(),
{
    let all = packets + more;
    if more.len() == 0 {
        assert(all =~= packets);
        assert(strings_in_packets(packets) + strings_in_packets(more) =~= strings_in_packets(
            packets,
        ));
    } else {
        law_later_packets_add_strings(packets, more.drop_last());
        assert(all.drop_last() =~= packets + more.drop_last());
        assert(all.last() == more.last());
        let last = strings_from(LengthUnit::Bytes, more.last(), 0);
        assert(strings_in_packets(packets) + strings_in_packets(more.drop_last()) + last
            =~= strings_in_packets(packets) + (strings_in_packets(more.drop_last()) + last));
    }
}

/// Packets that follow do not change the title that packets give, nor the artist where they
/// give one.
pub proof fn law_later_packets_keep_the_title(
    packets: Seq<Seq<u8>>,
    more: Seq<Seq<u8>>,
    now: u64,
    later: u64,
)
    ensures
        metadata_in(strings_in_packets(packets), now) matches Some(before) ==> {
            let after = metadata_in(strings_in_packets(packets + more), later);
            &&& after is Some
            &&& after.unwrap().title == before.title
            &&& strings_in_packets(packets).len() >= 2 ==> after.unwrap().artist == before.artist
        },
{
    law_later_packets_add_strings(packets, more);
}

} // verus!
