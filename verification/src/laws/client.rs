//! What holds of the client from event to event.

use crate::cache::{stored, CACHE_SIZE};
use crate::client::lemma_ascending;
use crate::fetch::elapsed;
use crate::model::{
    DatagramView, DeckStatus, DeviceAddr, DeviceView, MetadataKey, MetadataView, RecordView,
};
use crate::packet::{
    channel_on_air, is_player_id, keep_alive_id, packet_type, status_deck, status_name,
    PACKET_TYPE_CDJ_STATUS, PACKET_TYPE_MIXER,
};
use crate::state::{
    history_with, on_air_device, packets_for, ClientView, PacketView, DEBOUNCE_DELAY,
    DEVICE_TIMEOUT, HISTORY_SIZE, PACKET_QUEUE_SIZE,
};
use vstd::prelude::*;

verus! {

/// Whatever comes in on the ports, and whatever is forgotten, keeps the invariant.
pub proof fn law_events_keep_invariant(
    client: ClientView,
    data: Seq<u8>,
    packet: DatagramView,
    now: u64,
)
    requires
        client.inv(),
    ensures
        client.with_mixer_on_air(data).inv(),
        client.with_cdj_status(data, packet.source, now).inv(),
        client.with_packet(packet).inv(),
        client.with_status_packet(packet, now).inv(),
        client.with_announcement(packet, now).inv(),
        client.pruned(now).inv(),
{
    lemma_mixer_inv(client, data);
    lemma_status_inv(client, data, packet.source, now);
    lemma_status_inv(client, packet.data, packet.source, now);
    assert(client.with_packet(packet).inv());
    lemma_mixer_inv(client.with_packet(packet), packet.data);
}

/// A mixer packet keeps the invariant.
proof fn lemma_mixer_inv(client: ClientView, data: Seq<u8>)
    requires
        client.inv(),
    ensures
        client.with_mixer_on_air(data).inv(),
{
    let after = client.with_mixer_on_air(data);
    if data.len() >= 0x28 {
        assert forall|id: u8| #[trigger] after.devices.contains_key(id) implies {
            &&& is_player_id(id)
            &&& after.devices[id].device_id == id
            &&& after.devices[id].status.track_loaded == (after.devices[id].status.track_id != 0)
        } by {
            assert(client.devices.contains_key(id));
            assert(after.devices[id] == on_air_device(client.devices[id], id, data[0x27], 4));
        }
    }
}

/// A status packet keeps the invariant.
proof fn lemma_status_inv(client: ClientView, data: Seq<u8>, ip: DeviceAddr, now: u64)
    requires
        client.inv(),
    ensures
        client.with_cdj_status(data, ip, now).inv(),
{
}

/// A new client satisfies the invariant.
pub proof fn law_new_client_satisfies_invariant()
    ensures
        ClientView::initial().inv(),
{
}

/// Asking for fetches and telling the history of a track keep the invariant.
pub proof fn law_requests_keep_invariant(
    client: ClientView,
    key: MetadataKey,
    deck: u8,
    ids: Seq<u8>,
    track_id: u32,
    title: Seq<char>,
    artist: Seq<char>,
    now: u64,
)
    requires
        client.inv(),
    ensures
        client.with_fetch(key, deck, now).inv(),
        client.with_fetches(ids, now).inv(),
        client.with_history_metadata(track_id, title, artist).inv(),
{
    lemma_fetches_frame(client, ids, now);
}

/// Finishing a fetch keeps the invariant.
pub proof fn law_storing_keeps_invariant(
    client: ClientView,
    cache: Map<MetadataKey, MetadataView>,
    key: MetadataKey,
    metadata: MetadataView,
)
    requires
        client.inv(),
        stored(client.cache, cache, key, metadata),
    ensures
        (ClientView { pending: client.pending.remove(key), cache, ..client }).inv(),
{
    law_stored_is_found(client.cache, cache, key, metadata);
}

/// Asking for fetches changes nothing but what is pending, which only grows.
proof fn lemma_fetches_frame(client: ClientView, ids: Seq<u8>, now: u64)
    ensures
        client.with_fetches(ids, now) == (ClientView {
            pending: client.with_fetches(ids, now).pending,
            ..client
        }),
        client.pending.subset_of(client.with_fetches(ids, now).pending),
    decreases ids.len(),
{
    if ids.len() > 0 {
        lemma_fetches_frame(client, ids.drop_last(), now);
    }
}

/// A status packet of another player is what is then known of it: status, name, address,
/// and that it was seen just now. All other devices stay as they are.
pub proof fn law_status_is_known(client: ClientView, data: Seq<u8>, ip: DeviceAddr, now: u64)
    requires
        client.accepts_status(data),
    ensures
        ({
            let after = client.with_cdj_status(data, ip, now);
            let id = data[0x21];
            &&& after.devices.contains_key(id)
            &&& after.devices[id].status == status_deck(data)
            &&& after.devices[id].name == status_name(data)
            &&& after.devices[id].ip == ip
            &&& after.devices[id].last_seen == now
            &&& after.devices.remove(id) == client.devices.remove(id)
        }),
{
    let after = client.with_cdj_status(data, ip, now);
    assert(after.devices.remove(data[0x21]) =~= client.devices.remove(data[0x21]));
}

/// Packets under our own number are ignored, on either port.
pub proof fn law_own_number_is_ignored(
    client: ClientView,
    packet: DatagramView,
    ip: DeviceAddr,
    now: u64,
)
    ensures
        packet.data.len() > 0x21 && packet.data[0x21] == client.our_device_id
            ==> client.with_cdj_status(packet.data, ip, now) == client,
        packet.data.len() > 0x24 && packet.data[0x24] == client.our_device_id
            ==> client.with_announcement(packet, now) == client,
{
}

/// A track change is recorded once: the same packet again adds no record, and does not
/// start the wait before a fetch again.
pub proof fn law_track_change_is_recorded_once(
    client: ClientView,
    data: Seq<u8>,
    ip: DeviceAddr,
    now: u64,
    later: u64,
)
    ensures
        ({
            let once = client.with_cdj_status(data, ip, now);
            let twice = once.with_cdj_status(data, ip, later);
            &&& twice.history == once.history
            &&& twice.last_track_change == once.last_track_change
        }),
{
}

/// A track change is the newest record in the history; the others are those from before,
/// in order, but for the oldest where the history was full.
pub proof fn law_history_keeps_the_newest(history: Seq<RecordView>, record: RecordView)
    requires
        history.len() <= HISTORY_SIZE,
    ensures
        ({
            let after = history_with(history, record);
            &&& after.len() <= HISTORY_SIZE
            &&& after.last() == record
            &&& history.len() < HISTORY_SIZE ==> after.drop_last() == history
            &&& history.len() == HISTORY_SIZE ==> after.drop_last() == history.drop_first()
        }),
{
    let after = history_with(history, record);
    assert(history.len() < HISTORY_SIZE ==> after.drop_last() =~= history);
    assert(history.len() == HISTORY_SIZE ==> after.drop_last() =~= history.drop_first());
}

/// No status packet changes the history but by a track change: a deck that reports a
/// track that it did not have.
pub proof fn law_history_grows_by_track_changes(
    client: ClientView,
    data: Seq<u8>,
    ip: DeviceAddr,
    now: u64,
)
    ensures
        ({
            let after = client.with_cdj_status(data, ip, now);
            let id = data[0x21];
            let status = status_deck(data);
            if client.accepts_status(data) && status.track_id != 0 && !(client.devices.contains_key(
                id,
            ) && client.devices[id].status.track_id == status.track_id) {
                after.history == history_with(
                    client.history,
                    client.change_record(id, status, now),
                )
            } else {
                after.history == client.history
            }
        }),
{
}

/// Metadata reaches the history once: where a record has a title, it stays.
pub proof fn law_history_metadata_stays(
    client: ClientView,
    track_id: u32,
    title: Seq<char>,
    artist: Seq<char>,
    title2: Seq<char>,
    artist2: Seq<char>,
)
    ensures
        client.with_history_metadata(track_id, title, artist).with_history_metadata(
            track_id,
            title2,
            artist2,
        ) == client.with_history_metadata(track_id, title, artist),
{
    let once = client.with_history_metadata(track_id, title, artist);
    let twice = once.with_history_metadata(track_id, title2, artist2);
    assert(twice.history =~= once.history);
}

/// After the history is told of a track, every record of the track has a title, and the
/// records of other tracks are as they were.
pub proof fn law_history_metadata_reaches_the_track(
    client: ClientView,
    track_id: u32,
    title: Seq<char>,
    artist: Seq<char>,
    i: int,
)
    requires
        0 <= i < client.history.len(),
    ensures
        ({
            let after = client.with_history_metadata(track_id, title, artist).history;
            &&& after.len() == client.history.len()
            &&& after[i].track_id == client.history[i].track_id
            &&& client.history[i].track_id == track_id ==> after[i].title is Some
            &&& client.history[i].track_id != track_id ==> after[i] == client.history[i]
            &&& client.history[i].title is Some ==> after[i] == client.history[i]
        }),
{
}

/// What was stored is found, and the cache keeps its bound. Entries of other tracks are
/// as they were, or gave way.
pub proof fn law_stored_is_found(
    before: Map<MetadataKey, MetadataView>,
    after: Map<MetadataKey, MetadataView>,
    key: MetadataKey,
    metadata: MetadataView,
)
    requires
        before.dom().finite(),
        before.len() <= CACHE_SIZE,
        stored(before, after, key, metadata),
    ensures
        after.contains_key(key),
        after[key] == metadata,
        after.dom().finite(),
        after.len() <= CACHE_SIZE,
        forall|k: MetadataKey| #[trigger]
            after.contains_key(k) && k != key ==> before.contains_key(k) && after[k] == before[k],
        before.len() < CACHE_SIZE ==> forall|k: MetadataKey| #[trigger]
            before.contains_key(k) ==> after.contains_key(k),
{
    if before.len() >= CACHE_SIZE {
        let old = choose|old: MetadataKey| #[trigger]
            crate::cache::is_oldest(before, old) && after == before.remove(old).insert(
                key,
                metadata,
            );
        assert(before.dom().remove(old).len() == before.dom().len() - 1);
        assert(after.dom() =~= before.dom().remove(old).insert(key));
    } else {
        assert(after.dom() =~= before.dom().insert(key));
    }
}

/// Once its metadata is in the cache, the track on a deck is reported by its title and
/// artist, and its device is shown with them.
pub proof fn law_fetched_metadata_is_reported(
    client: ClientView,
    cache: Map<MetadataKey, MetadataView>,
    id: u8,
    metadata: MetadataView,
)
    requires
        client.inv(),
        client.devices.contains_key(id),
        stored(client.cache, cache, client.devices[id].status.spec_track_key(), metadata),
    ensures
        ({
            let after = ClientView { cache, ..client };
            &&& after.track_on(id).title == metadata.title
            &&& after.track_on(id).artist == metadata.artist
            &&& after.device_info(id).track_title == Some(metadata.title)
            &&& after.device_info(id).track_artist == Some(metadata.artist)
        }),
{
    law_stored_is_found(
        client.cache,
        cache,
        client.devices[id].status.spec_track_key(),
        metadata,
    );
}

/// A fetch that runs, or whose answer is at hand, is not started again, for whichever
/// deck and whenever.
pub proof fn law_no_second_fetch(
    client: ClientView,
    key: MetadataKey,
    deck: u8,
    now: u64,
    deck2: u8,
    later: u64,
)
    ensures
        client.may_fetch(key, deck, now) ==> !client.with_fetch(key, deck, now).may_fetch(
            key,
            deck2,
            later,
        ),
        client.cache.contains_key(key) ==> !client.may_fetch(key, deck, now),
{
}

/// A fetch that ended with nothing may be tried again.
pub proof fn law_failed_fetch_may_be_tried_again(
    client: ClientView,
    key: MetadataKey,
    deck: u8,
    now: u64,
)
    requires
        !client.cache.contains_key(key),
        !client.last_track_change.contains_key(deck) || elapsed(
            client.last_track_change[deck],
            now,
        ) >= DEBOUNCE_DELAY,
    ensures
        (ClientView { pending: client.pending.remove(key), ..client }).may_fetch(key, deck, now),
{
}

/// No fetch starts on behalf of a deck until its track has been loaded long enough.
pub proof fn law_fetch_waits_after_track_change(
    client: ClientView,
    data: Seq<u8>,
    ip: DeviceAddr,
    now: u64,
    key: MetadataKey,
    later: u64,
)
    requires
        client.accepts_status(data),
        client.track_changed(data[0x21], status_deck(data).track_id),
        later < now + DEBOUNCE_DELAY,
    ensures
        !client.with_cdj_status(data, ip, now).may_fetch(key, data[0x21], later),
{
}

/// The fetches that start when everybody is shown are about different tracks, none of
/// which was pending or at hand before, and all of which are pending after.
pub proof fn law_requests_are_distinct(client: ClientView, ids: Seq<u8>, now: u64)
    ensures
        forall|i: int, j: int|
            0 <= i < j < client.requests(ids, now).len() ==> client.requests(ids, now)[i].key
                != client.requests(ids, now)[j].key,
        forall|i: int|
            0 <= i < client.requests(ids, now).len() ==> {
                let key = (#[trigger] client.requests(ids, now)[i]).key;
                &&& !client.pending.contains(key)
                &&& !client.cache.contains_key(key)
                &&& client.with_fetches(ids, now).pending.contains(key)
            },
    decreases ids.len(),
{
    if ids.len() > 0 {
        let earlier = ids.drop_last();
        law_requests_are_distinct(client, earlier, now);
        lemma_fetches_frame(client, earlier, now);
        let before = client.requests(earlier, now);
        let all = client.requests(ids, now);
        assert forall|i: int| 0 <= i < all.len() implies {
            let key = (#[trigger] all[i]).key;
            &&& !client.pending.contains(key)
            &&& !client.cache.contains_key(key)
            &&& client.with_fetches(ids, now).pending.contains(key)
        } by {
            if i < before.len() {
                assert(all[i] == before[i]);
            }
        }
        assert forall|i: int, j: int| 0 <= i < j < all.len() implies all[i].key
            != all[j].key by {
            assert(all[i] == before[i]);
            if j < before.len() {
                assert(all[j] == before[j]);
            }
        }
    }
}

/// Pruning keeps exactly the devices that were seen within the timeout, as they are, and
/// doing it again at the same time changes nothing.
pub proof fn law_prune_keeps_the_fresh(client: ClientView, now: u64, id: u8)
    ensures
        client.pruned(now).devices.contains_key(id) <==> client.devices.contains_key(id)
            && elapsed(client.devices[id].last_seen, now) < DEVICE_TIMEOUT,
        client.pruned(now).devices.contains_key(id) ==> client.pruned(now).devices[id]
            == client.devices[id],
        client.pruned(now).pruned(now) == client.pruned(now),
{
    let once = client.pruned(now);
    assert(once.pruned(now).devices =~= once.devices);
    assert(once.pruned(now) =~= once);
}

/// Who has just sent a packet is not forgotten.
pub proof fn law_heard_devices_stay(client: ClientView, packet: DatagramView, now: u64, later: u64)
    requires
        later < now + DEVICE_TIMEOUT,
    ensures
        client.accepts_status(packet.data) ==> client.with_cdj_status(
            packet.data,
            packet.source,
            now,
        ).pruned(later).devices.contains_key(packet.data[0x21]),
        keep_alive_id(packet.data) matches Some(id) ==> id != client.our_device_id
            ==> client.with_announcement(packet, now).pruned(later).devices.contains_key(id),
{
}

/// A keep-alive packet does not touch what is known of a deck, nor its address or name.
pub proof fn law_announcement_keeps_status(
    client: ClientView,
    packet: DatagramView,
    now: u64,
    id: u8,
)
    requires
        client.devices.contains_key(id),
    ensures
        ({
            let after = client.with_announcement(packet, now);
            &&& after.devices.contains_key(id)
            &&& after.devices[id].status == client.devices[id].status
            &&& after.devices[id].ip == client.devices[id].ip
            &&& client.devices[id].name.len() > 0 ==> after.devices[id].name
                == client.devices[id].name
        }),
{
}

/// A mixer packet changes on-air flags only, and only those of decks 1 to 4, which then
/// are as the packet says.
pub proof fn law_mixer_sets_on_air_only(client: ClientView, data: Seq<u8>, id: u8)
    requires
        client.devices.contains_key(id),
        data.len() >= 0x28,
    ensures
        ({
            let after = client.with_mixer_on_air(data).devices;
            &&& after.dom() == client.devices.dom()
            &&& 1 <= id <= 4 ==> after[id].status.is_on_air == channel_on_air(data[0x27], id)
            &&& !(1 <= id <= 4) ==> after[id] == client.devices[id]
            &&& (DeviceView {
                status: DeckStatus {
                    is_on_air: client.devices[id].status.is_on_air,
                    ..after[id].status
                },
                ..after[id]
            }) == client.devices[id]
        }),
{
    let after = client.with_mixer_on_air(data).devices;
    assert(after.dom() =~= client.devices.dom());
    assert(after[id] == on_air_device(client.devices[id], id, data[0x27], 4));
}

/// Packets of other types than those of players and mixers change nothing.
pub proof fn law_other_packets_are_ignored(client: ClientView, packet: DatagramView, now: u64)
    requires
        packet_type(packet.data) != Some(PACKET_TYPE_CDJ_STATUS),
        packet_type(packet.data) != Some(PACKET_TYPE_MIXER),
    ensures
        client.with_status_packet(packet, now) == client,
{
}

/// There is a current track if and only if some deck is master and has a track, and it is
/// that of the lowest-numbered one.
pub proof fn law_master_deck(client: ClientView, from: int)
    requires
        client.inv(),
        1 <= from <= 7,
    ensures
        client.master_from(from) is Some <==> exists|id: u8|
            from <= id && #[trigger] client.is_master_deck(id),
        client.master_from(from) matches Some(id) ==> {
            &&& client.is_master_deck(id)
            &&& from <= id
            &&& forall|other: u8|
                from <= other && #[trigger] client.is_master_deck(other) ==> id <= other
        },
    decreases 7 - from,
{
    if from <= 6 {
        law_master_deck(client, from + 1);
        if client.is_master_deck(from as u8) {
            assert(from <= from as u8);
        }
        assert forall|other: u8| from <= other && #[trigger] client.is_master_deck(
            other,
        ) implies other == from || from + 1 <= other by {}
    } else {
        assert forall|id: u8| from <= id implies !#[trigger] client.is_master_deck(id) by {
            if client.devices.contains_key(id) {
                assert(is_player_id(id));
            }
        }
    }
}

/// Those who are shown are sorted by number, each once: every known device, and us.
pub proof fn law_shown_devices(client: ClientView)
    requires
        client.inv(),
    ensures
        forall|i: int, j: int|
            0 <= i < j < client.infos().len() ==> client.infos()[i].device_id
                < client.infos()[j].device_id,
        exists|i: int|
            0 <= i < client.infos().len() && #[trigger] client.infos()[i] == client.own_info(),
        forall|id: u8| #[trigger]
            client.devices.contains_key(id) && id != client.our_device_id ==> exists|i: int|
                0 <= i < client.infos().len() && #[trigger] client.infos()[i]
                    == client.device_info(id),
        forall|i: int|
            0 <= i < client.infos().len() ==> {
                let info = #[trigger] client.infos()[i];
                info == client.own_info() || client.devices.contains_key(info.device_id) && info
                    == client.device_info(info.device_id)
            },
{
    let all = client.devices.dom().insert(client.our_device_id);
    let ids = client.shown_ids();
    let infos = client.infos();
    lemma_ascending(all, 7);
    assert forall|i: int| 0 <= i < infos.len() implies (#[trigger] infos[i]).device_id
        == ids[i] by {
        assert(all.contains(ids[i]));
        if ids[i] != client.our_device_id {
            assert(client.devices.contains_key(ids[i]));
        }
    }
    assert forall|i: int, j: int| 0 <= i < j < infos.len() implies infos[i].device_id
        < infos[j].device_id by {
        assert(ids[i] < ids[j]);
    }
    assert(all.contains(client.our_device_id));
    let own = ids.index_of(client.our_device_id);
    assert(infos[own] == client.own_info());
    assert forall|id: u8| #[trigger]
        client.devices.contains_key(id) && id != client.our_device_id implies exists|i: int|
        0 <= i < infos.len() && #[trigger] infos[i] == client.device_info(id) by {
        assert(all.contains(id));
        assert(is_player_id(id));
        let at = ids.index_of(id);
        assert(infos[at] == client.device_info(id));
    }
    assert forall|i: int| 0 <= i < infos.len() implies {
        let info = #[trigger] infos[i];
        info == client.own_info() || client.devices.contains_key(info.device_id) && info
            == client.device_info(info.device_id)
    } by {
        assert(all.contains(ids[i]));
    }
}

/// What a player's status packet says is what is shown of that player.
pub proof fn law_status_is_shown(client: ClientView, data: Seq<u8>, ip: DeviceAddr, now: u64)
    requires
        client.inv(),
        client.accepts_status(data),
    ensures
        ({
            let infos = client.with_cdj_status(data, ip, now).infos();
            let status = status_deck(data);
            exists|i: int|
                0 <= i < infos.len() && (#[trigger] infos[i]).device_id == data[0x21]
                    && infos[i].name == status_name(data) && infos[i].ip == ip
                    && infos[i].track_loaded == (status.track_id != 0) && infos[i].is_playing
                    == status.is_playing && infos[i].is_looping == status.is_looping
                    && infos[i].is_master == status.is_master && infos[i].is_on_air
                    == status.is_on_air && infos[i].bpm == status.bpm
        }),
{
    let after = client.with_cdj_status(data, ip, now);
    lemma_status_inv(client, data, ip, now);
    law_shown_devices(after);
    assert(after.devices.contains_key(data[0x21]));
    let i = choose|i: int|
        0 <= i < after.infos().len() && #[trigger] after.infos()[i] == after.device_info(
            data[0x21],
        );
    assert(after.infos()[i].device_id == data[0x21]);
}

/// Where no other deck is master, the track that the master deck reports is the current
/// one, with the tempo and the play state that the deck reports.
pub proof fn law_master_track_is_current(
    client: ClientView,
    data: Seq<u8>,
    ip: DeviceAddr,
    now: u64,
)
    requires
        client.inv(),
        client.accepts_status(data),
        status_deck(data).is_master,
        status_deck(data).track_id != 0,
        forall|id: u8| id != data[0x21] ==> !#[trigger] client.is_master_deck(id),
    ensures
        ({
            let after = client.with_cdj_status(data, ip, now);
            let id = data[0x21];
            &&& after.master_from(1) == Some(id)
            &&& after.track_on(id).deck == Some(id)
            &&& after.track_on(id).bpm == status_deck(data).bpm
            &&& after.track_on(id).is_playing == status_deck(data).is_playing
        }),
{
    let after = client.with_cdj_status(data, ip, now);
    lemma_status_inv(client, data, ip, now);
    law_master_deck(after, 1);
    assert(after.is_master_deck(data[0x21]));
    assert forall|id: u8| id != data[0x21] implies !#[trigger] after.is_master_deck(id) by {
        assert(!client.is_master_deck(id));
    }
}

/// The devices are listed by number, each once, and all of them.
pub proof fn law_listed_devices(client: ClientView)
    requires
        client.inv(),
    ensures
        forall|i: int, j: int|
            0 <= i < j < client.device_ids().len() ==> client.device_ids()[i]
                < client.device_ids()[j],
        forall|id: u8|
            client.device_ids().contains(id) <==> #[trigger] client.devices.contains_key(id),
{
    lemma_ascending(client.devices.dom(), 6);
    assert forall|id: u8|
        client.device_ids().contains(id) <==> #[trigger] client.devices.contains_key(id) by {
        if client.devices.contains_key(id) {
            assert(is_player_id(id));
            assert(client.devices.dom().contains(id));
        }
        if client.device_ids().contains(id) {
            let i = client.device_ids().index_of(id);
            assert(client.devices.dom().contains(client.device_ids()[i]));
        }
    }
}

/// The queue of mixer packets keeps its bound and its order: the newest packet is last.
pub proof fn law_packet_queue(client: ClientView, packet: DatagramView)
    requires
        client.packets.len() <= PACKET_QUEUE_SIZE + 1,
    ensures
        client.with_packet(packet).packets.len() <= PACKET_QUEUE_SIZE + 1,
        client.with_packet(packet).packets.last().data == packet.data,
        client.with_packet(packet).packets.last().source_ip == packet.source,
{
}

/// Menu packets are taken from the player in question only: by number or by address.
pub proof fn law_menu_packets_are_filtered(
    packets: Seq<PacketView>,
    device_id: u8,
    device_ip: DeviceAddr,
    data: Seq<u8>,
)
    ensures
        packets_for(packets, device_id, device_ip).contains(data) <==> exists|i: int|
            0 <= i < packets.len() && (#[trigger] packets[i]).data == data && (packets[i].device_id
                == device_id || packets[i].source_ip == device_ip),
    decreases packets.len(),
{
    let found = packets_for(packets, device_id, device_ip);
    if packets.len() > 0 {
        let rest = packets.drop_last();
        let before = packets_for(rest, device_id, device_ip);
        law_menu_packets_are_filtered(rest, device_id, device_ip, data);
        let last = packets.last();
        assert(packets[packets.len() - 1] == last);
        if found.contains(data) {
            let k = found.index_of(data);
            if k < before.len() {
                assert(before[k] == data);
                let i = choose|i: int|
                    0 <= i < rest.len() && (#[trigger] rest[i]).data == data && (
                    rest[i].device_id == device_id || rest[i].source_ip == device_ip);
                assert(packets[i] == rest[i]);
            }
        }
        if exists|i: int|
            0 <= i < packets.len() && (#[trigger] packets[i]).data == data && (
            packets[i].device_id == device_id || packets[i].source_ip == device_ip) {
            let i = choose|i: int|
                0 <= i < packets.len() && (#[trigger] packets[i]).data == data && (
                packets[i].device_id == device_id || packets[i].source_ip == device_ip);
            if i < rest.len() {
                assert(rest[i] == packets[i]);
                let k = before.index_of(data);
                assert(found[k] == data);
            } else {
                assert(found[found.len() - 1] == data);
            }
        }
    }
}

} // verus!
