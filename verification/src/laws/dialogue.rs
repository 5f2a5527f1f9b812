//! What is said to a database server, byte by byte, and what is made of its answers.

use crate::bytes::be32;
use crate::dbserver::{
    field_text, menu_reply, metadata_in, metadata_request, number_field, render_request,
    setup_request, strings_from, strings_in_packets, utf16_units, LengthUnit, CONNECT_TIMEOUT,
    DB_MAGIC, DEFAULT_DB_PORT, DISCOVERY_PORT, DISCOVERY_TIMEOUT, REPLY_TIMEOUT,
};
use crate::fetch::{
    has_pair, ActionView, CollectorView, FetchStage, FetchView, RenderState, ReplyView,
    ROW_READ_SIZE, ROW_READ_TIMEOUT,
};
use crate::laws::wire::{
    fits_field, is_trimmed, law_terminated_text_reads_back, law_title_and_artist_are_found,
    string_field, utf16_encoded,
};
use crate::model::MetadataView;
use crate::text::{trimmed_nul, trimmed_space, utf16_decoded};
use vstd::prelude::*;

verus! {

/// The greeting, byte by byte.
pub proof fn law_greeting_bytes()
    ensures
        number_field(1) == seq![0x11u8, 0, 0, 0, 1],
{
    assert(number_field(1) =~= seq![0x11u8, 0, 0, 0, 1]);
}

/// The setup request, byte by byte.
pub proof fn law_setup_request_bytes(us: u8)
    ensures
        setup_request(us) == seq![
            0x11u8, 0x87, 0x23, 0x49, 0xae, 0x11, 0xff, 0xff, 0xff, 0xfe, 0x10, 0, 0, 0x0f, 1, 0x14,
            0, 0, 0, 1, 6, 0x11, 0, 0, 0, us,
        ],
{
    lemma_magic();
    assert(setup_request(us) =~= seq![
        0x11u8, 0x87, 0x23, 0x49, 0xae, 0x11, 0xff, 0xff, 0xff, 0xfe, 0x10, 0, 0, 0x0f, 1, 0x14, 0,
        0, 0, 1, 6, 0x11, 0, 0, 0, us,
    ]);
}

/// The four bytes that start a message.
proof fn lemma_magic()
    ensures
        DB_MAGIC@ == seq![0x87u8, 0x23, 0x49, 0xae],
{
    assert(DB_MAGIC@ =~= seq![0x87u8, 0x23, 0x49, 0xae]);
}

/// The metadata request, byte by byte: it asks as `us`, about the track of that id, in that
/// slot.
pub proof fn law_metadata_request_bytes(us: u8, slot: u8, track_id: u32)
    ensures
        metadata_request(us, slot, track_id) == seq![
            0x11u8, 0x87, 0x23, 0x49, 0xae, 0x11, 0, 0, 0, 2, 0x10, 0x20, 0x02, 0x0f, 2, 0x14, 0, 0,
            0, 2, 6, 6, 0x11, us, 1, slot, 1, 0x11,
        ] + be32(track_id),
{
    lemma_magic();
    assert(metadata_request(us, slot, track_id) =~= seq![
        0x11u8, 0x87, 0x23, 0x49, 0xae, 0x11, 0, 0, 0, 2, 0x10, 0x20, 0x02, 0x0f, 2, 0x14, 0, 0, 0,
        2, 6, 6, 0x11, us, 1, slot, 1, 0x11,
    ] + be32(track_id));
}

/// The render request, byte by byte: from row 0 on, as many rows as are wanted but no more
/// than 64, out of all.
pub proof fn law_render_request_bytes(us: u8, slot: u8, count: u32, total: u32, txid: u32)
    ensures
        ({
            let request = render_request(us, slot, count, total, txid);
            &&& request.len() == 56
            &&& request.subrange(0, 6) == seq![0x11u8, 0x87, 0x23, 0x49, 0xae, 0x11]
            &&& request.subrange(6, 10) == be32(txid)
            &&& request.subrange(10, 37) == seq![
                0x10u8, 0x30, 0, 0x0f, 6, 0x14, 0, 0, 0, 6, 6, 6, 6, 6, 6, 6, 0x11, us, 1, slot, 1,
                0x11, 0, 0, 0, 0, 0x11,
            ]
            &&& count <= 64 ==> request.subrange(37, 41) == be32(count)
            &&& count > 64 ==> request.subrange(37, 41) == seq![0u8, 0, 0, 64]
            &&& request.subrange(41, 47) == seq![0x11u8, 0, 0, 0, 0, 0x11]
            &&& request.subrange(47, 51) == be32(total)
            &&& request.subrange(51, 56) == seq![0x11u8, 0, 0, 0, 0]
        }),
{
    lemma_magic();
    let request = render_request(us, slot, count, total, txid);
    assert(request.len() == 56);
    assert(request.subrange(0, 6) =~= seq![0x11u8, 0x87, 0x23, 0x49, 0xae, 0x11]);
    assert(request.subrange(6, 10) =~= be32(txid));
    assert(request.subrange(10, 37) =~= seq![
        0x10u8, 0x30, 0, 0x0f, 6, 0x14, 0, 0, 0, 6, 6, 6, 6, 6, 6, 6, 0x11, us, 1, slot, 1, 0x11, 0,
        0, 0, 0, 0x11,
    ]);
    assert(count <= 64 ==> request.subrange(37, 41) =~= be32(count));
    assert(count > 64 ==> request.subrange(37, 41) =~= seq![0u8, 0, 0, 64]);
    assert(request.subrange(41, 47) =~= seq![0x11u8, 0, 0, 0, 0, 0x11]);
    assert(request.subrange(47, 51) =~= be32(total));
    assert(request.subrange(51, 56) =~= seq![0x11u8, 0, 0, 0, 0]);
}

/// When a reply to the metadata request announces a menu: if it has 15 bytes and its type is
/// not 0x4003. The transaction id stands in bytes 6 to 9.
pub proof fn law_menu_reply(data: Seq<u8>)
    ensures
        menu_reply(data) is Some <==> data.len() >= 15 && !(data[11] == 0x40 && data[12] == 0x03),
        menu_reply(data) matches Some(menu) ==> menu.txid == data[6] * 16_777_216 + data[7] * 65_536
            + data[8] * 256 + data[9],
{
    if data.len() >= 15 {
        let kind = data.subrange(11, 13);
        assert(kind[0] == data[11] && kind[1] == data[12]);
        let txid = data.subrange(6, 10);
        assert(txid[0] == data[6] && txid[1] == data[7] && txid[2] == data[8] && txid[3]
            == data[9]);
    }
}

/// How many rows a menu has. A reply of type 0x4000 tells it in its second argument, behind
/// `types` bytes of argument types; both arguments are numbers.
pub proof fn law_menu_size(data: Seq<u8>, types: int)
    requires
        data.len() >= 15,
        data.len() >= 20 ==> types == data[16] * 16_777_216 + data[17] * 65_536 + data[18] * 256
            + data[19],
    ensures
        menu_reply(data) matches Some(menu) ==> {
            let told = data.len() >= 32 && data[11] == 0x40 && data[12] == 0x00 && data[15] == 0x14
                && data.len() >= 30 + types && data[20 + types] == 0x11 && data[25 + types] == 0x11;
            &&& told ==> menu.menu_size == data[26 + types] * 16_777_216 + data[27 + types] * 65_536
                + data[28 + types] * 256 + data[29 + types]
            &&& !told ==> menu.menu_size == 16
        },
{
    let kind = data.subrange(11, 13);
    assert(kind[0] == data[11] && kind[1] == data[12]);
    if data.len() >= 32 {
        let length = data.subrange(16, 20);
        assert(length[0] == data[16] && length[1] == data[17] && length[2] == data[18]
            && length[3] == data[19]);
        if data.len() >= 30 + types {
            let size = data.subrange(26 + types, 30 + types);
            assert(size[0] == data[26 + types] && size[1] == data[27 + types] && size[2] == data[28
                + types] && size[3] == data[29 + types]);
        }
    }
}

/// Where no string field starts: in the last six bytes, at any byte but 0x26, and where the
/// length is zero, reaches its limit, or goes beyond the end. The limit is 512 bytes where
/// lengths count bytes, and 512 code units where they count those.
pub proof fn law_no_field_here(unit: LengthUnit, data: Seq<u8>, i: int, length: int)
    requires
        0 <= i,
        i + 6 < data.len() ==> length == data[i + 1] * 16_777_216 + data[i + 2] * 65_536 + data[i
            + 3] * 256 + data[i + 4],
    ensures
        i + 6 >= data.len() ==> strings_from(unit, data, i) == Seq::<Seq<char>>::empty(),
        i + 6 < data.len() && (data[i] != 0x26 || length == 0 || length >= 512 || (unit
            == LengthUnit::Bytes && i + 5 + length > data.len()) || (unit == LengthUnit::Units && i
            + 5 + 2 * length > data.len())) ==> strings_from(unit, data, i) == strings_from(
            unit,
            data,
            i + 1,
        ),
{
    if i + 6 < data.len() {
        let four = data.subrange(i + 1, i + 5);
        assert(four[0] == data[i + 1] && four[1] == data[i + 2] && four[2] == data[i + 3]
            && four[3] == data[i + 4]);
    }
}

/// Where a string field starts, its text comes before those of what follows it; a field
/// without text adds nothing.
pub proof fn law_field_here(unit: LengthUnit, data: Seq<u8>, i: int, length: int, end: int)
    requires
        0 <= i,
        i + 6 < data.len(),
        data[i] == 0x26,
        length == data[i + 1] * 16_777_216 + data[i + 2] * 65_536 + data[i + 3] * 256 + data[i + 4],
        0 < length < 512,
        unit == LengthUnit::Bytes ==> end == i + 5 + length,
        unit == LengthUnit::Units ==> end == i + 5 + 2 * length,
        end <= data.len(),
    ensures
        field_text(data.subrange(i + 5, end)) matches Some(text) ==> strings_from(unit, data, i)
            == seq![text] + strings_from(unit, data, end),
        field_text(data.subrange(i + 5, end)) is None ==> strings_from(unit, data, i)
            == strings_from(unit, data, end),
{
    let four = data.subrange(i + 1, i + 5);
    assert(four[0] == data[i + 1] && four[1] == data[i + 2] && four[2] == data[i + 3] && four[3]
        == data[i + 4]);
}

/// The text of a field: its bytes in pairs are UTF-16 code units, the first of a pair
/// weighing more, and an odd last byte counts nothing. NUL characters go from both ends,
/// then white space. Where nothing is left, or the units are not UTF-16, there is no text.
pub proof fn law_field_text(data: Seq<u8>, units: Seq<u16>)
    requires
        units.len() == data.len() / 2,
        forall|k: int|
            0 <= k < units.len() ==> #[trigger] units[k] == data[2 * k] * 256 + data[2 * k + 1],
    ensures
        utf16_decoded(units) is None ==> field_text(data) is None,
        utf16_decoded(units) matches Some(text) ==> {
            let rest = trimmed_space(trimmed_nul(text));
            &&& rest.len() == 0 ==> field_text(data) is None
            &&& rest.len() > 0 ==> field_text(data) == Some(rest)
        },
{
    assert(utf16_units(data) =~= units);
}

/// The first text is the title and the second the artist, who is unknown where there is no
/// second. Without texts there is no metadata.
pub proof fn law_metadata(strings: Seq<Seq<char>>, now: u64)
    ensures
        strings.len() == 0 ==> metadata_in(strings, now) is None,
        strings.len() >= 1 ==> {
            let metadata = metadata_in(strings, now);
            &&& metadata is Some
            &&& metadata.unwrap().title == strings[0]
            &&& strings.len() >= 2 ==> metadata.unwrap().artist == strings[1]
            &&& strings.len() == 1 ==> metadata.unwrap().artist == "Unknown Artist"@
            &&& metadata.unwrap().album is None
            &&& metadata.unwrap().duration is None
            &&& metadata.unwrap().fetched_at == now
        },
{
}

/// The texts of one packet are those of its string fields, whose lengths count bytes.
pub proof fn law_strings_in_one_packet(packet: Seq<u8>)
    ensures
        strings_in_packets(Seq::empty()) == Seq::<Seq<char>>::empty(),
        strings_in_packets(seq![packet]) == strings_from(LengthUnit::Bytes, packet, 0),
{
    let one = seq![packet];
    assert(one.drop_last() =~= Seq::<Seq<u8>>::empty());
    assert(strings_in_packets(one.drop_last()) =~= Seq::<Seq<char>>::empty());
    assert(strings_in_packets(one) =~= strings_from(LengthUnit::Bytes, packet, 0));
}

/// A menu is complete once more than 13 bytes are there and the footer among them: the bytes
/// 0x42 and 0x01 themselves, side by side, with at least one behind them.
pub proof fn law_footer(rows: CollectorView, more: Seq<u8>)
    requires
        rows.state != RenderState::Complete,
    ensures
        ({
            let data = rows.data + more;
            rows.with_data(more).state == RenderState::Complete <==> data.len() > 13 && exists|
                i: int,
            |
                0 <= i && i + 2 < data.len() && #[trigger] data[i] == 0x42 && data[i + 1] == 0x01
        }),
{
    let data = rows.data + more;
    if exists|i: int|
        0 <= i && i + 2 < data.len() && #[trigger] data[i] == 0x42 && data[i + 1] == 0x01 {
        let i = choose|i: int|
            0 <= i && i + 2 < data.len() && #[trigger] data[i] == 0x42 && data[i + 1] == 0x01;
        assert(data[i] == 0x42);
        assert(has_pair(data, 0x42, 0x01));
    }
}

/// What a menu's state tells short of its footer: the header has come once the type of the
/// first message is 0x4001, and rows come in once 0x41, 0x01 stand side by side.
pub proof fn law_render_state(rows: CollectorView, more: Seq<u8>)
    requires
        rows.with_data(more).state != RenderState::Complete,
    ensures
        ({
            let data = rows.data + more;
            let state = rows.with_data(more).state;
            let header = rows.state == RenderState::ReceivedHeader || rows.state
                == RenderState::WaitingForData && data.len() >= 13 && data[11] == 0x40 && data[12]
                == 0x01;
            let row = data.len() > 13 && exists|i: int|
                0 <= i && i + 2 < data.len() && #[trigger] data[i] == 0x41 && data[i + 1] == 0x01;
            &&& rows.state == RenderState::ReceivingRows ==> state == RenderState::ReceivingRows
            &&& header && row ==> state == RenderState::ReceivingRows
            &&& header && !row ==> state == RenderState::ReceivedHeader
            &&& !header && rows.state == RenderState::WaitingForData ==> state
                == RenderState::WaitingForData
        }),
{
    let data = rows.data + more;
    if data.len() >= 13 {
        let kind = data.subrange(11, 13);
        assert(kind[0] == data[11] && kind[1] == data[12]);
    }
    if exists|i: int|
        0 <= i && i + 2 < data.len() && #[trigger] data[i] == 0x41 && data[i + 1] == 0x01 {
        let i = choose|i: int|
            0 <= i && i + 2 < data.len() && #[trigger] data[i] == 0x41 && data[i + 1] == 0x01;
        assert(data[i] == 0x41);
        assert(has_pair(data, 0x41, 0x01));
    }
}

/// What collecting keeps: all data in order, how many reads timed out since data last came,
/// and when it started.
pub proof fn law_collecting(rows: CollectorView, more: Seq<u8>, now: u64)
    ensures
        CollectorView::empty(now).data.len() == 0,
        CollectorView::empty(now).timeouts == 0,
        CollectorView::empty(now).started == now,
        CollectorView::empty(now).state == RenderState::WaitingForData,
        rows.with_data(more).data == rows.data + more,
        rows.with_data(more).timeouts == 0,
        rows.with_data(more).started == rows.started,
        rows.with_timeout().data == rows.data,
        rows.with_timeout().state == rows.state,
        rows.with_timeout().started == rows.started,
        rows.timeouts < u32::MAX ==> rows.with_timeout().timeouts == rows.timeouts + 1,
        rows.given_up() <==> rows.timeouts >= 3 && rows.data.len() > 0,
        rows.wants_more(now) <==> now < rows.started + 2_000_000_000 && rows.data.len() < 65_536
            && rows.state != RenderState::Complete,
{
}

/// A read of rows: data goes on being collected, and timeouts too unless it is the third in
/// a row with data at hand, as long as two seconds are not over, 65536 bytes not reached and
/// the menu not complete. Anything else ends reading, with the metadata in the data, or on
/// to the menu packets.
pub proof fn law_reading(fetch: FetchView, reply: ReplyView, now: u64)
    requires
        fetch.stage == FetchStage::Rows,
        fetch.rows.timeouts < u32::MAX,
    ensures
        ({
            let (after, action) = fetch.next(reply, now);
            let all = match reply {
                ReplyView::Data(data) => fetch.rows.data + data,
                _ => fetch.rows.data,
            };
            let goes_on = match reply {
                ReplyView::Data(data) => data.len() > 0,
                ReplyView::TimedOut => fetch.rows.timeouts < 2 || all.len() == 0,
                _ => false,
            } && now < fetch.rows.started + 2_000_000_000 && all.len() < 65_536 && after.rows.state
                != RenderState::Complete;
            &&& after.rows.data == all
            &&& after.rows.started == fetch.rows.started
            &&& after.rows == match reply {
                ReplyView::Data(data) => if data.len() > 0 {
                    fetch.rows.with_data(data)
                } else {
                    fetch.rows
                },
                ReplyView::TimedOut => fetch.rows.with_timeout(),
                _ => fetch.rows,
            }
            &&& after.our_device_id == fetch.our_device_id
            &&& after.request == fetch.request
            &&& goes_on ==> after.stage == FetchStage::Rows && action == ActionView::ReadRows
            &&& !goes_on ==> match metadata_in(strings_from(LengthUnit::Units, all, 0), now) {
                Some(found) => after.stage == FetchStage::Finished && action == ActionView::Finish(
                    Some(found),
                ),
                None => after.stage == FetchStage::FallbackPause && action == ActionView::Pause(
                    300,
                ),
            }
        }),
{
    match reply {
        ReplyView::Data(data) => {
            if data.len() == 0 {
                assert(fetch.rows.data + data =~= fetch.rows.data);
            }
        },
        _ => {},
    }
}

/// What comes after a write: only if it was done, the answer is read. And what comes after an
/// answer: the next request, if there was an answer.
pub proof fn law_every_other_stage(fetch: FetchView, reply: ReplyView, now: u64)
    requires
        fetch.stage != FetchStage::Rows,
    ensures
        ({
            let (after, action) = fetch.next(reply, now);
            let us = fetch.our_device_id;
            let key = fetch.request.key;
            let answered = match reply {
                ReplyView::Data(data) => data.len() > 0,
                _ => false,
            };
            let ends = after.stage == FetchStage::Finished && action == ActionView::Finish(None);
            &&& after.our_device_id == us && after.request == fetch.request
            &&& match fetch.stage {
                FetchStage::Start => after.stage == FetchStage::GreetingSent && action
                    == ActionView::Write(seq![0x11u8, 0, 0, 0, 1]),
                FetchStage::GreetingSent => if reply is Done {
                    after.stage == FetchStage::GreetingReply && action == ActionView::Read(16)
                } else {
                    ends
                },
                FetchStage::GreetingReply => if answered {
                    after.stage == FetchStage::SetupSent && action == ActionView::Write(
                        setup_request(us),
                    )
                } else {
                    ends
                },
                FetchStage::SetupSent => if reply is Done {
                    after.stage == FetchStage::SetupReply && action == ActionView::Read(64)
                } else {
                    ends
                },
                FetchStage::SetupReply => if answered {
                    after.stage == FetchStage::SetupPause && action == ActionView::Pause(150)
                } else {
                    ends
                },
                FetchStage::SetupPause => after.stage == FetchStage::MetadataSent && action
                    == ActionView::Write(metadata_request(us, key.slot, key.track_id)),
                FetchStage::MetadataSent => if reply is Done {
                    after.stage == FetchStage::MetadataReply && action == ActionView::Read(256)
                } else {
                    ends
                },
                FetchStage::MetadataReply => match reply {
                    ReplyView::Data(data) => match menu_reply(data) {
                        Some(menu) => after.stage == FetchStage::RenderSent && action
                            == ActionView::Write(
                            render_request(
                                us,
                                key.slot,
                                menu.menu_size,
                                menu.menu_size,
                                ((menu.txid + 1) % 4_294_967_296) as u32,
                            ),
                        ),
                        None => ends,
                    },
                    _ => ends,
                },
                FetchStage::RenderSent => if reply is Done {
                    after.stage == FetchStage::RenderAck && action == ActionView::Read(4_096)
                } else {
                    ends
                },
                FetchStage::RenderAck => after.stage == FetchStage::Rows && action
                    == ActionView::ReadRows && after.rows == CollectorView::empty(now),
                FetchStage::FallbackPause => after.stage == FetchStage::MenuPackets && action
                    == ActionView::TakeMenuPackets,
                FetchStage::MenuPackets => after.stage == FetchStage::Finished && match reply {
                    ReplyView::Packets(packets) => action == ActionView::Finish(
                        metadata_in(strings_in_packets(packets), now),
                    ),
                    _ => action == ActionView::Finish(None),
                },
                _ => ends,
            }
        }),
{
    law_greeting_bytes();
}

/// A title that comes in one read and an artist in a later one are both found, whatever
/// letters the title has: the first read does not end the menu if 0x42 and 0x01 do not stand
/// side by side in it. It is the footer that does, in the second.
pub proof fn law_title_before_artist(
    fetch: FetchView,
    before: Seq<u8>,
    title: Seq<char>,
    between: Seq<u8>,
    artist: Seq<char>,
    rest: Seq<u8>,
    first: Seq<u8>,
    second: Seq<u8>,
    now: u64,
    later: u64,
)
    requires
        fetch.stage == FetchStage::Rows,
        fetch.rows == CollectorView::empty(fetch.rows.started),
        now < fetch.rows.started + 2_000_000_000,
        first == before + string_field(LengthUnit::Units, utf16_encoded(title).push(0)),
        second == between + string_field(LengthUnit::Units, utf16_encoded(artist).push(0)) + rest,
        first.len() < 65_536,
        forall|i: int|
            0 <= i && i + 1 < first.len() ==> !(#[trigger] first[i] == 0x42 && first[i + 1]
                == 0x01),
        exists|i: int|
            0 <= i && i + 2 < second.len() && #[trigger] second[i] == 0x42 && second[i + 1] == 0x01,
        !before.contains(0x26u8),
        !between.contains(0x26u8),
        is_trimmed(title),
        is_trimmed(artist),
        utf16_encoded(title).len() + 1 < 512,
        utf16_encoded(artist).len() + 1 < 512,
    ensures
        ({
            let (after, action) = fetch.next(ReplyView::Data(first), now);
            &&& after.stage == FetchStage::Rows
            &&& action == ActionView::ReadRows
            &&& after.next(ReplyView::Data(second), later).1 == ActionView::Finish(
                Some(
                    MetadataView {
                        title,
                        artist,
                        album: None,
                        duration: None,
                        fetched_at: later,
                    },
                ),
            )
        }),
{
    let rows = fetch.rows;
    assert(rows.data + first =~= first);
    law_footer(rows, first);
    law_reading(fetch, ReplyView::Data(first), now);
    let after = fetch.next(ReplyView::Data(first), now).0;
    let all = first + second;
    assert(all.len() > 13) by {
        assert(title.len() > 0 && artist.len() > 0);
    }
    let i = choose|i: int|
        0 <= i && i + 2 < second.len() && #[trigger] second[i] == 0x42 && second[i + 1] == 0x01;
    let at = first.len() + i;
    assert(all[at] == second[i] && all[at + 1] == second[i + 1]);
    law_footer(after.rows, second);
    law_terminated_text_reads_back(title);
    law_terminated_text_reads_back(artist);
    assert(fits_field(LengthUnit::Units, utf16_encoded(title).push(0)));
    assert(fits_field(LengthUnit::Units, utf16_encoded(artist).push(0)));
    law_title_and_artist_are_found(
        LengthUnit::Units,
        before,
        utf16_encoded(title).push(0),
        between,
        utf16_encoded(artist).push(0),
        rest,
        later,
    );
    law_reading(after, ReplyView::Data(second), later);
}

/// The ports, sizes and times of the conversation.
pub proof fn law_conversation_numbers()
    ensures
        DISCOVERY_PORT == 12_523,
        DEFAULT_DB_PORT == 1_051,
        DISCOVERY_TIMEOUT == 2_000,
        CONNECT_TIMEOUT == 3_000,
        REPLY_TIMEOUT == 5_000,
        ROW_READ_SIZE == 4_096,
        ROW_READ_TIMEOUT == 350,
{
}

} // verus!
