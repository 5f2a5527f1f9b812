//! The database server that players run over TCP: requests, replies, and the metadata
//! strings in rendered menus.
//!
//! A message is a row of tagged fields: `0x11` starts a four-byte number, `0x10` a
//! two-byte one, `0x0f` a single byte, `0x14` a blob and `0x26` a UTF-16 string.

use crate::bytes::{append, append_be32, be16_value, be32, be32_value, read_be16, read_be32};
use crate::model::{metadata_view, MetadataView, TrackMetadata};
use crate::text::{trim_nul, trim_space, trimmed_nul, trimmed_space, utf16_decoded, utf16_text};
use vstd::prelude::*;

verus! {

/// The four bytes that start every message, after its first tag.
pub const DB_MAGIC: [u8; 4] = [0x87, 0x23, 0x49, 0xae];

/// The port of the database server where a player does not say otherwise.
pub const DEFAULT_DB_PORT: u16 = 1051;

/// The port on which a player says where its database server is.
pub const DISCOVERY_PORT: u16 = 12523;

/// How long to wait for a player to say where its database server is, in milliseconds.
pub const DISCOVERY_TIMEOUT: u64 = 2_000;

/// How long to wait for a connection to a database server, in milliseconds.
pub const CONNECT_TIMEOUT: u64 = 3_000;

/// How long a single read or write may take on such a connection, in milliseconds.
pub const REPLY_TIMEOUT: u64 = 5_000;

/// The reply type that says that there is no metadata.
pub const REPLY_UNAVAILABLE: u16 = 0x4003;

/// The reply type that announces a menu.
pub const REPLY_MENU: u16 = 0x4000;

/// A four-byte number field.
pub open spec fn number_field(value: u32) -> Seq<u8> {
    seq![0x11u8] + be32(value)
}

/// The field that says who asks for which menu, of which slot: player, menu 1, slot,
/// rekordbox track.
pub open spec fn menu_field(device_id: u8, slot: u8) -> Seq<u8> {
    seq![0x11u8, device_id, 0x01, slot, 0x01]
}

/// `n` argument type bytes that say "number".
pub open spec fn number_types(n: nat) -> Seq<u8> {
    Seq::new(n, |i: int| 0x06u8)
}

/// Everything of a message before its arguments, which are `argc` numbers.
pub open spec fn message_head(txid: u32, kind: u16, argc: u8) -> Seq<u8> {
    seq![0x11u8] + DB_MAGIC@ + number_field(txid) + seq![
        0x10u8,
        (kind / 0x100) as u8,
        (kind % 0x100) as u8,
        0x0f,
        argc,
        0x14,
    ] + be32(argc as u32) + number_types(argc as nat)
}

/// The request that opens a conversation.
pub open spec fn setup_request(our_device_id: u8) -> Seq<u8> {
    message_head(0xffff_fffe, 0x0000, 1) + number_field(our_device_id as u32)
}

/// The request for the metadata menu of a track.
pub open spec fn metadata_request(our_device_id: u8, slot: u8, track_id: u32) -> Seq<u8> {
    message_head(2, 0x2002, 2) + menu_field(our_device_id, slot) + number_field(track_id)
}

/// The request for the rows of a menu, 64 at most.
pub open spec fn render_request(
    our_device_id: u8,
    slot: u8,
    count: u32,
    total: u32,
    txid: u32,
) -> Seq<u8> {
    message_head(txid, 0x3000, 6) + menu_field(our_device_id, slot) + number_field(0)
        + number_field(
        if count <= 64 {
            count
        } else {
            64
        },
    ) + number_field(0) + number_field(total) + number_field(0)
}

/// The transaction id of a message.
pub open spec fn message_txid(data: Seq<u8>) -> u32 {
    be32_value(data.subrange(6, 10)) as u32
}

/// The type of a message.
pub open spec fn message_kind(data: Seq<u8>) -> u16 {
    be16_value(data.subrange(11, 13)) as u16
}

/// The number of rows that a menu reply announces in its second argument: 16 where it
/// does not say.
pub open spec fn menu_size(data: Seq<u8>) -> u32 {
    let args = 20 + be32_value(data.subrange(16, 20));
    if message_kind(data) == REPLY_MENU && data.len() >= 32 && data[15] == 0x14 && data.len()
        >= args + 10 && data[args] == 0x11 && data[args + 5] == 0x11 {
        be32_value(data.subrange(args + 6, args + 10)) as u32
    } else {
        16
    }
}

/// What the reply to a metadata request leads to.
#[derive(Clone, Copy, Debug, PartialEq, Eq, Structural)]
pub struct MenuReply {
    pub txid: u32,
    pub menu_size: u32,
}

/// The menu that a reply announces: none if the reply is too short to read, or says that
/// there is no metadata.
pub open spec fn menu_reply(data: Seq<u8>) -> Option<MenuReply> {
    if data.len() < 15 || message_kind(data) == REPLY_UNAVAILABLE {
        None
    } else {
        Some(MenuReply { txid: message_txid(data), menu_size: menu_size(data) })
    }
}

/// What the length of a string field counts.
#[derive(Clone, Copy, Debug, PartialEq, Eq, Structural)]
pub enum LengthUnit {
    /// Bytes, as in menu packets.
    Bytes,
    /// UTF-16 code units, as in rendered rows.
    Units,
}

/// How many bytes the text of the string field at `i` takes.
pub open spec fn string_size(unit: LengthUnit, data: Seq<u8>, i: int) -> int {
    let length = be32_value(data.subrange(i + 1, i + 5));
    match unit {
        LengthUnit::Bytes => length,
        LengthUnit::Units => 2 * length,
    }
}

/// Texts have fewer bytes than this.
pub open spec fn string_limit(unit: LengthUnit) -> int {
    match unit {
        LengthUnit::Bytes => 512,
        LengthUnit::Units => 1024,
    }
}

/// Whether a string field of a sound length stands at `i`.
pub open spec fn is_string_field(unit: LengthUnit, data: Seq<u8>, i: int) -> bool {
    let size = string_size(unit, data, i);
    data[i] == 0x26 && 0 < size < string_limit(unit) && i + 5 + size <= data.len()
}

/// The big-endian UTF-16 code units in `data`; an odd last byte is none.
pub open spec fn utf16_units(data: Seq<u8>) -> Seq<u16> {
    Seq::new(data.len() / 2, |k: int| (data[2 * k] * 0x100 + data[2 * k + 1]) as u16)
}

/// The text in a string field: none if it is not UTF-16, or if nothing but padding.
pub open spec fn field_text(data: Seq<u8>) -> Option<Seq<char>> {
    match utf16_decoded(utf16_units(data)) {
        Some(text) => {
            let text = trimmed_space(trimmed_nul(text));
            if text.len() > 0 {
                Some(text)
            } else {
                None
            }
        },
        None => None,
    }
}

/// The texts of the string fields in `data`, from position `i` on. What lies inside a
/// field is not looked at again, and the last six bytes start no field.
pub open spec fn strings_from(unit: LengthUnit, data: Seq<u8>, i: int) -> Seq<Seq<char>>
    decreases data.len() - i,
{
    if i < 0 || i + 6 >= data.len() {
        Seq::empty()
    } else if is_string_field(unit, data, i) {
        let end = i + 5 + string_size(unit, data, i);
        let rest = strings_from(unit, data, end);
        match field_text(data.subrange(i + 5, end)) {
            Some(text) => seq![text] + rest,
            None => rest,
        }
    } else {
        strings_from(unit, data, i + 1)
    }
}

/// The texts of the string fields in a row of packets.
pub open spec fn strings_in_packets(packets: Seq<Seq<u8>>) -> Seq<Seq<char>>
    decreases packets.len(),
{
    if packets.len() == 0 {
        Seq::empty()
    } else {
        strings_in_packets(packets.drop_last()) + strings_from(
            LengthUnit::Bytes,
            packets.last(),
            0,
        )
    }
}

/// The metadata in a list of texts: the first is the title, the second the artist.
pub open spec fn metadata_in(strings: Seq<Seq<char>>, now: u64) -> Option<MetadataView> {
    if strings.len() == 0 {
        None
    } else {
        Some(
            MetadataView {
                title: strings[0],
                artist: if strings.len() >= 2 {
                    strings[1]
                } else {
                    "Unknown Artist"@
                },
                album: None,
                duration: None,
                fetched_at: now,
            },
        )
    }
}

/// The views of a list of strings.
pub open spec fn string_views(strings: Seq<String>) -> Seq<Seq<char>> {
    Seq::new(strings.len(), |i: int| strings[i]@)
}

/// The views of a list of packets.
pub open spec fn packet_views(packets: Seq<Vec<u8>>) -> Seq<Seq<u8>> {
    Seq::new(packets.len(), |i: int| packets[i]@)
}

/// The question that a player answers with the port of its database server.
pub fn port_query() -> (query: Vec<u8>)
    ensures
        query@ == seq![0u8, 0, 0, 15] + vstd::utf8::encode_utf8("RemoteDBServer"@) + seq![0u8],
{
    let mut query: Vec<u8> = Vec::new();
    append(&mut query, &[0, 0, 0, 15]);
    append(&mut query, "RemoteDBServer".as_bytes());
    query.push(0);
    assert(query@ =~= seq![0u8, 0, 0, 15] + vstd::utf8::encode_utf8("RemoteDBServer"@)
        + seq![0u8]);
    query
}

/// The port of the database server: the two bytes that the player answered, if it did.
pub fn dbserver_port(answer: Option<[u8; 2]>) -> (port: u16)
    ensures
        port == match answer {
            Some(bytes) => be16_value(bytes@),
            None => DEFAULT_DB_PORT as int,
        },
{
    match answer {
        Some(bytes) => bytes[0] as u16 * 0x100 + bytes[1] as u16,
        None => DEFAULT_DB_PORT,
    }
}

/// The greeting that opens the connection: the number 1. The player echoes it.
pub fn build_greeting() -> (greeting: Vec<u8>)
    ensures
        greeting@ == number_field(1),
{
    let mut greeting: Vec<u8> = Vec::new();
    append_number(&mut greeting, 1);
    assert(greeting@ =~= number_field(1));
    greeting
}

/// Appends a four-byte number field.
fn append_number(packet: &mut Vec<u8>, value: u32)
    ensures
        final(packet)@ == old(packet)@ + number_field(value),
{
    packet.push(0x11);
    append_be32(packet, value);
    assert(packet@ =~= old(packet)@ + number_field(value));
}

/// Starts a message of which `argc` number arguments follow.
fn start_message(txid: u32, kind: u16, argc: u8) -> (packet: Vec<u8>)
    ensures
        packet@ == message_head(txid, kind, argc),
{
    let mut packet: Vec<u8> = Vec::with_capacity(100);
    packet.push(0x11);
    append(&mut packet, &DB_MAGIC);
    append_number(&mut packet, txid);
    append(&mut packet, &[0x10, (kind / 0x100) as u8, (kind % 0x100) as u8, 0x0f, argc, 0x14]);
    append_be32(&mut packet, argc as u32);
    let ghost head = packet@;
    let mut i: u8 = 0;
    while i < argc
        invariant
            i <= argc,
            packet@ == head + number_types(i as nat),
        decreases argc - i,
    {
        packet.push(0x06);
        i = i + 1;
        assert(packet@ =~= head + number_types(i as nat));
    }
    assert(packet@ =~= message_head(txid, kind, argc));
    packet
}

/// Builds the request that opens a conversation: type 0, with the transaction id that
/// the protocol asks for.
pub fn build_setup_request(our_device_id: u8, _target_device_id: u8) -> (packet: Vec<u8>)
    ensures
        packet@ == setup_request(our_device_id),
{
    let mut packet = start_message(0xffff_fffe, 0x0000, 1);
    append_number(&mut packet, our_device_id as u32);
    packet
}

/// Builds the request for the metadata menu of a track. The menu field carries our own
/// player number, which the player checks.
pub fn build_metadata_request(
    our_device_id: u8,
    _source_device_id: u8,
    slot: u8,
    track_id: u32,
) -> (packet: Vec<u8>)
    ensures
        packet@ == metadata_request(our_device_id, slot, track_id),
{
    let mut packet = start_message(2, 0x2002, 2);
    append(&mut packet, &[0x11, our_device_id, 0x01, slot, 0x01]);
    append_number(&mut packet, track_id);
    assert(packet@ =~= metadata_request(our_device_id, slot, track_id));
    packet
}

/// Builds the request for the rows of the menu that the last request made: from the
/// start, `count` rows but no more than 64, of `total`.
pub fn build_render_request(
    our_device_id: u8,
    _source_device_id: u8,
    slot: u8,
    _track_id: u32,
    count: u32,
    total: u32,
    txid: u32,
) -> (packet: Vec<u8>)
    ensures
        packet@ == render_request(our_device_id, slot, count, total, txid),
{
    let mut packet = start_message(txid, 0x3000, 6);
    append(&mut packet, &[0x11, our_device_id, 0x01, slot, 0x01]);
    append_number(&mut packet, 0);
    append_number(
        &mut packet,
        if count <= 64 {
            count
        } else {
            64
        },
    );
    append_number(&mut packet, 0);
    append_number(&mut packet, total);
    append_number(&mut packet, 0);
    assert(packet@ =~= render_request(our_device_id, slot, count, total, txid));
    packet
}

/// The number of rows that a menu reply announces.
fn read_menu_size(data: &[u8]) -> (size: u32)
    requires
        data@.len() >= 15,
    ensures
        size == menu_size(data@),
{
    if data.len() < 32 || read_be16(data, 11) != REPLY_MENU || data[15] != 0x14 {
        return 16;
    }
    let types = read_be32(data, 16) as usize;
    let room = data.len() - 20;
    if room < 10 || types > room - 10 {
        return 16;
    }
    let args = 20 + types;
    if data[args] == 0x11 && data[args + 5] == 0x11 {
        read_be32(data, args + 6)
    } else {
        16
    }
}

/// Reads the reply to a metadata request.
pub fn read_menu_reply(data: &[u8]) -> (reply: Option<MenuReply>)
    ensures
        reply == menu_reply(data@),
{
    if data.len() < 15 || read_be16(data, 11) == REPLY_UNAVAILABLE {
        None
    } else {
        Some(MenuReply { txid: read_be32(data, 6), menu_size: read_menu_size(data) })
    }
}

/// The big-endian UTF-16 code units in `data`.
fn read_utf16_units(data: &[u8]) -> (units: Vec<u16>)
    ensures
        units@ == utf16_units(data@),
{
    let mut units: Vec<u16> = Vec::new();
    let len = data.len();
    let n = len / 2;
    let mut k: usize = 0;
    while k < n
        invariant
            k <= n,
            len == data@.len(),
            n == len / 2,
            units@.len() == k,
            forall|j: int| 0 <= j < k ==> #[trigger] units@[j] == utf16_units(data@)[j],
        decreases n - k,
    {
        units.push(data[2 * k] as u16 * 0x100 + data[2 * k + 1] as u16);
        k = k + 1;
    }
    assert(units@ =~= utf16_units(data@));
    units
}

/// The text in a string field.
fn read_field_text(data: &[u8]) -> (text: Option<String>)
    ensures
        text is Some <==> field_text(data@) is Some,
        text matches Some(t) ==> Some(t@) == field_text(data@),
{
    let units = read_utf16_units(data);
    match utf16_text(units.as_slice()) {
        Some(text) => {
            let text = trim_space(trim_nul(text.as_str())).to_owned();
            if text.as_str().is_empty() {
                None
            } else {
                Some(text)
            }
        },
        None => None,
    }
}

/// The texts of the string fields in `data`.
pub fn scan_strings(unit: LengthUnit, data: &[u8]) -> (strings: Vec<String>)
    ensures
        string_views(strings@) == strings_from(unit, data@, 0),
{
    let mut strings: Vec<String> = Vec::new();
    let mut i: usize = 0;
    proof {
        assert(string_views(strings@) + strings_from(unit, data@, 0) =~= strings_from(
            unit,
            data@,
            0,
        ));
    }
    while i < data.len() && data.len() - i > 6
        invariant
            i <= data@.len(),
            string_views(strings@) + strings_from(unit, data@, i as int) == strings_from(
                unit,
                data@,
                0,
            ),
        decreases data@.len() - i,
    {
        let length = read_be32(data, i + 1) as u64;
        let (size, limit): (u64, u64) = match unit {
            LengthUnit::Bytes => (length, 512),
            LengthUnit::Units => (2 * length, 1024),
        };
        if data[i] == 0x26 && 0 < size && size < limit && size as usize <= data.len() - i - 5 {
            let size = size as usize;
            let ghost before = string_views(strings@);
            let ghost rest = strings_from(unit, data@, i + 5 + size);
            match read_field_text(&data[i + 5..i + 5 + size]) {
                Some(text) => {
                    strings.push(text);
                    proof {
                        assert(string_views(strings@) =~= before.push(text@));
                        assert(before.push(text@) + rest =~= before + (seq![text@] + rest));
                    }
                },
                None => {},
            }
            i = i + 5 + size;
        } else {
            i = i + 1;
        }
    }
    assert(string_views(strings@) + strings_from(unit, data@, i as int) =~= string_views(
        strings@,
    ));
    strings
}

/// The metadata in a list of texts.
fn metadata_from(strings: &Vec<String>, now: u64) -> (metadata: Option<TrackMetadata>)
    ensures
        metadata_view(metadata) == metadata_in(string_views(strings@), now),
{
    if strings.len() == 0 {
        return None;
    }
    let artist = if strings.len() >= 2 {
        strings[1].clone()
    } else {
        "Unknown Artist".to_owned()
    };
    Some(
        TrackMetadata {
            title: strings[0].clone(),
            artist,
            album: None,
            duration: None,
            fetched_at: now,
        },
    )
}

/// The metadata in the rows that the database server rendered.
pub fn parse_rendered_rows(data: &[u8], now: u64) -> (metadata: Option<TrackMetadata>)
    ensures
        metadata_view(metadata) == metadata_in(strings_from(LengthUnit::Units, data@, 0), now),
{
    metadata_from(&scan_strings(LengthUnit::Units, data), now)
}

/// The metadata in menu packets that came by UDP.
pub fn parse_menu_packets(packets: &Vec<Vec<u8>>, now: u64) -> (metadata: Option<TrackMetadata>)
    ensures
        metadata_view(metadata) == metadata_in(strings_in_packets(packet_views(packets@)), now),
{
    let ghost all = packet_views(packets@);
    let mut strings: Vec<String> = Vec::new();
    let mut i: usize = 0;
    assert(string_views(strings@) =~= strings_in_packets(all.take(0)));
    while i < packets.len()
        invariant
            i <= packets@.len(),
            all == packet_views(packets@),
            string_views(strings@) == strings_in_packets(all.take(i as int)),
        decreases packets@.len() - i,
    {
        let mut more = scan_strings(LengthUnit::Bytes, packets[i].as_slice());
        let ghost before = strings@;
        let ghost added = more@;
        strings.append(&mut more);
        proof {
            assert(all.take(i + 1).drop_last() =~= all.take(i as int));
            assert(string_views(strings@) =~= string_views(before) + string_views(added));
        }
        i = i + 1;
    }
    assert(all.take(i as int) =~= all);
    metadata_from(&strings, now)
}

} // verus!
