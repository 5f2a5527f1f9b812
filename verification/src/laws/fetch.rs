//! What holds of a conversation with a database server.

use crate::dbserver::{
    menu_reply, metadata_in, metadata_request, number_field, render_request, setup_request,
    strings_from, strings_in_packets, LengthUnit,
};
use crate::fetch::{
    elapsed, has_pair, ActionView, CollectorView, FetchStage, FetchView, RenderState, ReplyView,
    FALLBACK_PAUSE, MAX_TIMEOUT_STREAK, RENDER_DURATION, RENDER_SIZE, SETUP_PAUSE,
};
use crate::laws::wire::{
    fits_field, is_trimmed, law_terminated_text_reads_back, law_title_and_artist_are_found,
    string_field, utf16_encoded,
};
use crate::model::{DeviceAddr, MetadataView};
use crate::state::{packets_for, PacketView};
use vstd::prelude::*;

verus! {

/// How far a conversation has come.
pub open spec fn progress(stage: FetchStage) -> int {
    match stage {
        FetchStage::Start => 0,
        FetchStage::GreetingSent => 1,
        FetchStage::GreetingReply => 2,
        FetchStage::SetupSent => 3,
        FetchStage::SetupReply => 4,
        FetchStage::SetupPause => 5,
        FetchStage::MetadataSent => 6,
        FetchStage::MetadataReply => 7,
        FetchStage::RenderSent => 8,
        FetchStage::RenderAck => 9,
        FetchStage::Rows => 10,
        FetchStage::FallbackPause => 11,
        FetchStage::MenuPackets => 12,
        FetchStage::Finished => 13,
    }
}

/// A conversation goes on to a later stage with every step, but that rows are read for as
/// long as more may come: not beyond the time, the size, or the footer.
pub proof fn law_conversation_advances(fetch: FetchView, reply: ReplyView, now: u64)
    requires
        fetch.stage != FetchStage::Finished,
    ensures
        ({
            let (after, action) = fetch.next(reply, now);
            ||| progress(after.stage) > progress(fetch.stage)
            ||| fetch.stage == FetchStage::Rows && after.stage == FetchStage::Rows
                && after.rows.wants_more(now) && after.rows.started == fetch.rows.started
        }),
{
}

/// A finished conversation stays finished, and only then an action says so.
pub proof fn law_finished_stays_finished(fetch: FetchView, reply: ReplyView, now: u64)
    ensures
        ({
            let (after, action) = fetch.next(reply, now);
            &&& action is Finish <==> after.stage == FetchStage::Finished
            &&& fetch.stage == FetchStage::Finished ==> after == fetch && action
                == ActionView::Finish(None)
        }),
{
}

/// A conversation in which the player answers everything: greeting, setup, the request for
/// the menu, and the request for its rows under the next transaction id, for as many rows
/// as the menu has. Each step has a time of its own; rows are collected from the last.
pub proof fn law_conversation(
    fetch: FetchView,
    greeting: Seq<u8>,
    setup: Seq<u8>,
    menu: Seq<u8>,
    ack: ReplyView,
    times: Seq<u64>,
)
    requires
        fetch.stage == FetchStage::Start,
        greeting.len() > 0,
        setup.len() > 0,
        menu_reply(menu) is Some,
        times.len() == 10,
    ensures
        ({
            let us = fetch.our_device_id;
            let key = fetch.request.key;
            let reply = menu_reply(menu).unwrap();
            let (f1, a1) = fetch.next(ReplyView::Done, times[0]);
            let (f2, a2) = f1.next(ReplyView::Done, times[1]);
            let (f3, a3) = f2.next(ReplyView::Data(greeting), times[2]);
            let (f4, a4) = f3.next(ReplyView::Done, times[3]);
            let (f5, a5) = f4.next(ReplyView::Data(setup), times[4]);
            let (f6, a6) = f5.next(ReplyView::Done, times[5]);
            let (f7, a7) = f6.next(ReplyView::Done, times[6]);
            let (f8, a8) = f7.next(ReplyView::Data(menu), times[7]);
            let (f9, a9) = f8.next(ReplyView::Done, times[8]);
            let (f10, a10) = f9.next(ack, times[9]);
            &&& a1 == ActionView::Write(number_field(1))
            &&& a2 == ActionView::Read(16)
            &&& a3 == ActionView::Write(setup_request(us))
            &&& a4 == ActionView::Read(64)
            &&& a5 == ActionView::Pause(SETUP_PAUSE)
            &&& a6 == ActionView::Write(metadata_request(us, key.slot, key.track_id))
            &&& a7 == ActionView::Read(256)
            &&& a8 == ActionView::Write(
                render_request(
                    us,
                    key.slot,
                    reply.menu_size,
                    reply.menu_size,
                    if reply.txid < u32::MAX {
                        (reply.txid + 1) as u32
                    } else {
                        0
                    },
                ),
            )
            &&& a9 == ActionView::Read(4096)
            &&& a10 == ActionView::ReadRows
            &&& f10 == (FetchView {
                stage: FetchStage::Rows,
                rows: CollectorView::empty(times[9]),
                ..fetch
            })
        }),
{
}

/// A player that answers that it has no metadata, or does not answer, ends the
/// conversation with nothing.
pub proof fn law_refusal_ends_with_nothing(fetch: FetchView, reply: ReplyView, now: u64)
    ensures
        fetch.stage == FetchStage::MetadataReply && !(reply matches ReplyView::Data(data)
            && menu_reply(data) is Some) ==> fetch.next(reply, now).1 == ActionView::Finish(None),
        (fetch.stage == FetchStage::GreetingReply || fetch.stage == FetchStage::SetupReply) && !(
        reply matches ReplyView::Data(data) && data.len() > 0) ==> fetch.next(reply, now).1
            == ActionView::Finish(None),
{
}

/// What is found comes from the rows that were read, or, where these have no title, from
/// menu packets.
pub proof fn law_found_metadata_was_received(
    fetch: FetchView,
    reply: ReplyView,
    now: u64,
    found: MetadataView,
)
    requires
        fetch.next(reply, now).1 == ActionView::Finish(Some(found)),
    ensures
        ({
            let rows = fetch.next(reply, now).0.rows;
            ||| metadata_in(strings_from(LengthUnit::Units, rows.data, 0), now) == Some(found)
            ||| reply matches ReplyView::Packets(packets) && metadata_in(
                strings_in_packets(packets),
                now,
            ) == Some(found)
        }),
{
}

/// Once the footer came, or time is up, rows are no longer read: their metadata is the
/// result, or menu packets are looked for.
pub proof fn law_rows_come_to_an_end(fetch: FetchView, data: Seq<u8>, now: u64)
    requires
        fetch.stage == FetchStage::Rows,
        data.len() > 0,
        has_pair(fetch.rows.data + data, 0x42, 0x01) && (fetch.rows.data + data).len() > 13
            || elapsed(fetch.rows.started, now) >= RENDER_DURATION || (fetch.rows.data
            + data).len() >= RENDER_SIZE,
    ensures
        ({
            let all = fetch.rows.data + data;
            fetch.next(ReplyView::Data(data), now).1 == match metadata_in(
                strings_from(LengthUnit::Units, all, 0),
                now,
            ) {
                Some(found) => ActionView::Finish(Some(found)),
                None => ActionView::Pause(FALLBACK_PAUSE),
            }
        }),
{
}

/// It does not matter in how many pieces rows come in: the same is collected, and the menu
/// is complete or not alike.
pub proof fn law_rows_may_come_in_pieces(rows: CollectorView, first: Seq<u8>, second: Seq<u8>)
    requires
        rows.state != RenderState::Complete,
    ensures
        ({
            let pieces = rows.with_data(first).with_data(second);
            let whole = rows.with_data(first + second);
            &&& pieces.data == whole.data
            &&& pieces.state == RenderState::Complete <==> whole.state == RenderState::Complete
        }),
{
    let part = rows.data + first;
    let all = part + second;
    assert(all =~= rows.data + (first + second));
    if has_pair(part, 0x42, 0x01) {
        let i = choose|i: int|
            0 <= i < part.len() - 2 && #[trigger] part[i] == 0x42 && part[i + 1] == 0x01;
        assert(all[i] == part[i] && all[i + 1] == part[i + 1]);
        assert(has_pair(all, 0x42, 0x01));
    }
}

/// What reads gave: all their data, joined.
pub open spec fn joined_data(replies: Seq<ReplyView>) -> Seq<u8>
    decreases replies.len(),
{
    if replies.len() == 0 {
        Seq::empty()
    } else {
        match replies.last() {
            ReplyView::Data(data) => joined_data(replies.drop_last()) + data,
            _ => joined_data(replies.drop_last()),
        }
    }
}

/// The conversation after reads that gave `replies` at `times`.
pub open spec fn fetch_after(
    fetch: FetchView,
    replies: Seq<ReplyView>,
    times: Seq<u64>,
) -> FetchView
    decreases replies.len(),
{
    if replies.len() == 0 {
        fetch
    } else {
        let n = replies.len() - 1;
        fetch_after(fetch, replies.drop_last(), times).next(replies.last(), times[n]).0
    }
}

/// Whether every read gave data or timed out, never three timeouts in a row.
pub open spec fn is_steady(replies: Seq<ReplyView>) -> bool {
    &&& forall|i: int|
        0 <= i < replies.len() ==> (#[trigger] replies[i] is TimedOut || (replies[i] matches
            ReplyView::Data(data) && data.len() > 0))
    &&& forall|i: int|
        0 <= i < replies.len() - 2 ==> !(#[trigger] replies[i] is TimedOut && replies[i
            + 1] is TimedOut && replies[i + 2] is TimedOut)
}

/// How many timeouts end `replies`.
spec fn last_timeouts(replies: Seq<ReplyView>) -> nat
    decreases replies.len(),
{
    if replies.len() > 0 && replies.last() is TimedOut {
        last_timeouts(replies.drop_last()) + 1
    } else {
        0
    }
}

/// Steady reads end with two timeouts at most.
proof fn lemma_steady(replies: Seq<ReplyView>)
    requires
        is_steady(replies),
    ensures
        last_timeouts(replies) <= 2,
        replies.len() > 0 ==> is_steady(replies.drop_last()),
{
    reveal_with_fuel(last_timeouts, 4);
    let n = replies.len() as int;
    if n > 0 {
        let fewer = replies.drop_last();
        assert forall|i: int| 0 <= i < fewer.len() implies #[trigger] fewer[i] == replies[i] by {}
        assert forall|i: int| 0 <= i < fewer.len() - 2 implies !(#[trigger] fewer[i] is TimedOut
            && fewer[i + 1] is TimedOut && fewer[i + 2] is TimedOut) by {
            assert(fewer[i + 1] == replies[i + 1] && fewer[i + 2] == replies[i + 2]);
            assert(!(replies[i] is TimedOut && replies[i + 1] is TimedOut && replies[i
                + 2] is TimedOut));
        }
    }
    if n >= 3 {
        assert(!(replies[n - 3] is TimedOut && replies[n - 3 + 1] is TimedOut && replies[n - 3
            + 2] is TimedOut));
        assert(replies.drop_last().last() == replies[n - 2]);
        assert(replies.drop_last().drop_last().last() == replies[n - 3]);
    }
}

/// A pair stays where more follows.
proof fn lemma_pair_stays(data: Seq<u8>, more: Seq<u8>, a: u8, b: u8)
    ensures
        has_pair(data, a, b) ==> has_pair(data + more, a, b),
{
    if has_pair(data, a, b) {
        let i = choose|i: int|
            0 <= i < data.len() - 2 && #[trigger] data[i] == a && data[i + 1] == b;
        assert((data + more)[i] == data[i] && (data + more)[i + 1] == data[i + 1]);
    }
}

/// It does not matter how rows are divided into reads, nor that reads time out in between,
/// if not three times in a row. Within the time, below the size and without a footer, reading
/// goes on, and what was collected is what the reads gave, joined.
pub proof fn law_reading_goes_on(fetch: FetchView, replies: Seq<ReplyView>, times: Seq<u64>)
    requires
        fetch.stage == FetchStage::Rows,
        fetch.rows == CollectorView::empty(fetch.rows.started),
        times.len() == replies.len(),
        is_steady(replies),
        joined_data(replies).len() < RENDER_SIZE,
        !has_pair(joined_data(replies), 0x42, 0x01),
        forall|i: int|
            0 <= i < times.len() ==> elapsed(fetch.rows.started, #[trigger] times[i])
                < RENDER_DURATION,
    ensures
        ({
            let after = fetch_after(fetch, replies, times);
            &&& after.stage == FetchStage::Rows
            &&& after.rows.data == joined_data(replies)
            &&& forall|i: int|
                0 <= i < replies.len() ==> fetch_after(fetch, replies.take(i), times).next(
                    #[trigger] replies[i],
                    times[i],
                ).1 == ActionView::ReadRows
        }),
{
    lemma_reading(fetch, replies, times);
    assert forall|i: int| 0 <= i < replies.len() implies fetch_after(
        fetch,
        replies.take(i),
        times,
    ).next(#[trigger] replies[i], times[i]).1 == ActionView::ReadRows by {
        lemma_reading_prefix(fetch, replies, times, i + 1);
        assert(replies.take(i + 1).drop_last() =~= replies.take(i));
        assert(replies.take(i + 1).last() == replies[i]);
    }
}

/// What holds while reading goes on.
spec fn reads_on(fetch: FetchView, replies: Seq<ReplyView>, times: Seq<u64>) -> bool {
    let after = fetch_after(fetch, replies, times);
    &&& after.stage == FetchStage::Rows
    &&& after.rows.data == joined_data(replies)
    &&& after.rows.timeouts == last_timeouts(replies)
    &&& after.rows.started == fetch.rows.started
    &&& after.rows.state != RenderState::Complete
    &&& replies.len() > 0 ==> fetch_after(fetch, replies.drop_last(), times).next(
        replies.last(),
        times[replies.len() - 1],
    ).1 == ActionView::ReadRows
}

/// Reading goes on, from read to read.
proof fn lemma_reading(fetch: FetchView, replies: Seq<ReplyView>, times: Seq<u64>)
    requires
        fetch.stage == FetchStage::Rows,
        fetch.rows == CollectorView::empty(fetch.rows.started),
        times.len() >= replies.len(),
        is_steady(replies),
        joined_data(replies).len() < RENDER_SIZE,
        !has_pair(joined_data(replies), 0x42, 0x01),
        forall|i: int|
            0 <= i < times.len() ==> elapsed(fetch.rows.started, #[trigger] times[i])
                < RENDER_DURATION,
    ensures
        reads_on(fetch, replies, times),
    decreases replies.len(),
{
    if replies.len() > 0 {
        let fewer = replies.drop_last();
        let n = replies.len() - 1;
        lemma_steady(replies);
        assert(replies[n] == replies.last());
        assert(elapsed(fetch.rows.started, times[n]) < RENDER_DURATION);
        match replies.last() {
            ReplyView::Data(data) => {
                lemma_pair_stays(joined_data(fewer), data, 0x42, 0x01);
            },
            _ => {},
        }
        lemma_reading(fetch, fewer, times);
    }
}

/// Reading went on all along.
proof fn lemma_reading_prefix(
    fetch: FetchView,
    replies: Seq<ReplyView>,
    times: Seq<u64>,
    n: int,
)
    requires
        fetch.stage == FetchStage::Rows,
        fetch.rows == CollectorView::empty(fetch.rows.started),
        times.len() >= replies.len(),
        is_steady(replies),
        joined_data(replies).len() < RENDER_SIZE,
        !has_pair(joined_data(replies), 0x42, 0x01),
        forall|i: int|
            0 <= i < times.len() ==> elapsed(fetch.rows.started, #[trigger] times[i])
                < RENDER_DURATION,
        0 <= n <= replies.len(),
    ensures
        reads_on(fetch, replies.take(n), times),
    decreases replies.len(),
{
    if n == replies.len() {
        assert(replies.take(n) =~= replies);
        lemma_reading(fetch, replies, times);
    } else {
        let fewer = replies.drop_last();
        lemma_steady(replies);
        match replies.last() {
            ReplyView::Data(data) => {
                lemma_pair_stays(joined_data(fewer), data, 0x42, 0x01);
            },
            _ => {},
        }
        lemma_reading_prefix(fetch, fewer, times, n);
        assert(fewer.take(n) =~= replies.take(n));
    }
}

/// Where such reads come to the end of the stream, title and artist depend on the joined
/// bytes alone: where these have no title, menu packets are looked for.
pub proof fn law_division_does_not_matter(
    fetch: FetchView,
    replies: Seq<ReplyView>,
    times: Seq<u64>,
    now: u64,
)
    requires
        fetch.stage == FetchStage::Rows,
        fetch.rows == CollectorView::empty(fetch.rows.started),
        times.len() == replies.len(),
        is_steady(replies),
        joined_data(replies).len() < RENDER_SIZE,
        !has_pair(joined_data(replies), 0x42, 0x01),
        forall|i: int|
            0 <= i < times.len() ==> elapsed(fetch.rows.started, #[trigger] times[i])
                < RENDER_DURATION,
    ensures
        fetch_after(fetch, replies, times).next(ReplyView::Data(Seq::empty()), now).1
            == match metadata_in(
            strings_from(LengthUnit::Units, joined_data(replies), 0),
            now,
        ) {
            Some(found) => ActionView::Finish(Some(found)),
            None => ActionView::Pause(FALLBACK_PAUSE),
        },
{
    lemma_reading(fetch, replies, times);
}

/// A track that the player renders is found: where rows hold its title and its artist, each
/// in a string field that ends with a NUL character, then once the footer came the
/// conversation ends with just these. Other bytes may stand before each field, but 0x26.
pub proof fn law_rendered_track_is_found(
    fetch: FetchView,
    more: Seq<u8>,
    before: Seq<u8>,
    title: Seq<char>,
    between: Seq<u8>,
    artist: Seq<char>,
    rest: Seq<u8>,
    now: u64,
)
    requires
        fetch.stage == FetchStage::Rows,
        more.len() > 0,
        fetch.rows.data + more == before + string_field(
            LengthUnit::Units,
            utf16_encoded(title).push(0),
        ) + (between + string_field(LengthUnit::Units, utf16_encoded(artist).push(0)) + rest),
        has_pair(fetch.rows.data + more, 0x42, 0x01),
        !before.contains(0x26u8),
        !between.contains(0x26u8),
        is_trimmed(title),
        is_trimmed(artist),
        fits_field(LengthUnit::Units, utf16_encoded(title).push(0)),
        fits_field(LengthUnit::Units, utf16_encoded(artist).push(0)),
    ensures
        fetch.next(ReplyView::Data(more), now).1 == ActionView::Finish(
            Some(
                MetadataView {
                    title,
                    artist,
                    album: None,
                    duration: None,
                    fetched_at: now,
                },
            ),
        ),
{
    law_terminated_text_reads_back(title);
    law_terminated_text_reads_back(artist);
    law_title_and_artist_are_found(
        LengthUnit::Units,
        before,
        utf16_encoded(title).push(0),
        between,
        utf16_encoded(artist).push(0),
        rest,
        now,
    );
    assert(utf16_encoded(title).push(0).len() >= 2) by {
        assert(title.len() > 0);
    }
    assert(utf16_encoded(artist).push(0).len() >= 2) by {
        assert(artist.len() > 0);
    }
    law_rows_come_to_an_end(fetch, more, now);
}

/// With data at hand, the third timeout in a row ends reading.
pub proof fn law_timeouts_end_reading(fetch: FetchView, now: u64)
    requires
        fetch.stage == FetchStage::Rows,
        fetch.rows.data.len() > 0,
        fetch.rows.timeouts + 1 >= MAX_TIMEOUT_STREAK,
    ensures
        fetch.next(ReplyView::TimedOut, now).0.stage != FetchStage::Rows,
{
}

/// Data ends a row of timeouts.
pub proof fn law_data_ends_timeouts(rows: CollectorView, more: Seq<u8>)
    ensures
        rows.with_data(more).timeouts == 0,
        rows.with_data(more).data == rows.data + more,
        rows.with_timeout().data == rows.data,
{
}

/// A packet that is neither from the player's number nor from its address is no answer of
/// the player, wherever it stands among the others.
pub proof fn law_other_players_do_not_answer(
    before: Seq<PacketView>,
    other: PacketView,
    after: Seq<PacketView>,
    device_id: u8,
    device_ip: DeviceAddr,
)
    requires
        other.device_id != device_id,
        other.source_ip != device_ip,
    ensures
        packets_for(before + seq![other] + after, device_id, device_ip) == packets_for(
            before + after,
            device_id,
            device_ip,
        ),
    decreases after.len(),
{
    let with = before + seq![other] + after;
    let without = before + after;
    if after.len() == 0 {
        assert(without =~= before);
        assert(with.drop_last() =~= before);
    } else {
        let rest = after.drop_last();
        law_other_players_do_not_answer(before, other, rest, device_id, device_ip);
        assert(with.drop_last() =~= before + seq![other] + rest);
        assert(without.drop_last() =~= before + rest);
    }
}

/// What a conversation finds in menu packets was sent by the player that it asks: a waiting
/// packet of anybody else makes no difference.
pub proof fn law_only_the_player_asked_answers(
    fetch: FetchView,
    before: Seq<PacketView>,
    other: PacketView,
    after: Seq<PacketView>,
    now: u64,
)
    requires
        other.device_id != fetch.request.key.device_id,
        other.source_ip != fetch.request.device_ip,
    ensures
        ({
            let id = fetch.request.key.device_id;
            let ip = fetch.request.device_ip;
            fetch.next(
                ReplyView::Packets(packets_for(before + seq![other] + after, id, ip)),
                now,
            ) == fetch.next(ReplyView::Packets(packets_for(before + after, id, ip)), now)
        }),
{
    law_other_players_do_not_answer(
        before,
        other,
        after,
        fetch.request.key.device_id,
        fetch.request.device_ip,
    );
}

} // verus!
