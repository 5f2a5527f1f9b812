//! What each event does to what the client knows: all of it, and nothing else.

use crate::cache::{is_oldest, stored};
use crate::fetch::elapsed;
use crate::laws::packets::{law_mixer_channels, law_status_bytes, law_track_key};
use crate::model::{
    DatagramView, DeckStatus, DeviceAddr, DeviceView, MetadataKey, MetadataView, RecordView,
};
use crate::packet::{keep_alive_name, packet_type, status_deck, status_name};
use crate::state::{on_air_device, packets_for, ClientView, PacketView};
use vstd::prelude::*;

verus! {

/// A new client knows no device, no track and no error, and goes by the number 6.
pub proof fn law_new_client()
    ensures
        ({
            let client = ClientView::initial();
            &&& client.devices == Map::<u8, DeviceView>::empty()
            &&& client.cache == Map::<MetadataKey, MetadataView>::empty()
            &&& client.pending == Set::<MetadataKey>::empty()
            &&& client.last_error is None
            &&& client.packets.len() == 0
            &&& client.our_device_id == 6
            &&& client.last_track_change == Map::<u8, u64>::empty()
            &&& client.history.len() == 0
        }),
{
}

/// What the invariant of a client means.
pub proof fn law_invariant(client: ClientView, id: u8, i: int)
    requires
        client.inv(),
    ensures
        client.devices.contains_key(id) ==> {
            &&& 1 <= id <= 6
            &&& client.devices[id].device_id == id
            &&& client.devices[id].status.track_loaded <==> client.devices[id].status.track_id != 0
        },
        client.cache.len() <= 500,
        client.packets.len() <= 51,
        client.history.len() <= 100,
        0 <= i < client.history.len() ==> 1 <= client.history[i].deck <= 6
            && client.history[i].track_id != 0,
        1 <= client.our_device_id <= 7,
{
}

/// The time since a point in time is what has passed, and never negative.
pub proof fn law_elapsed(then: u64, now: u64)
    ensures
        then <= now ==> elapsed(then, now) == now - then,
        now < then ==> elapsed(then, now) == 0,
{
}

/// A status packet is taken in if it has 124 bytes and is that of another player, numbered
/// 1 to 6. Any other changes nothing.
pub proof fn law_status_is_taken_in(client: ClientView, data: Seq<u8>, ip: DeviceAddr, now: u64)
    ensures
        data.len() >= 124 && 1 <= data[33] <= 6 && data[33] != client.our_device_id ==> {
            let after = client.with_cdj_status(data, ip, now);
            let device = after.devices[data[33]];
            &&& after.devices.dom() == client.devices.dom().insert(data[33])
            &&& device.device_id == data[33]
            &&& device.ip == ip
            &&& device.last_seen == now
            &&& device.name == status_name(data)
            &&& device.status == status_deck(data)
        },
        !(data.len() >= 124 && 1 <= data[33] <= 6 && data[33] != client.our_device_id)
            ==> client.with_cdj_status(data, ip, now) == client,
{
    if data.len() >= 124 && 1 <= data[33] <= 6 && data[33] != client.our_device_id {
        let after = client.with_cdj_status(data, ip, now);
        assert(after.devices.dom() =~= client.devices.dom().insert(data[33]));
    }
}

/// A status packet touches no other device, and neither the cache, nor what is pending, nor
/// the waiting packets, the error or our number.
pub proof fn law_status_touches_nothing_else(
    client: ClientView,
    data: Seq<u8>,
    ip: DeviceAddr,
    now: u64,
    other: u8,
)
    ensures
        ({
            let after = client.with_cdj_status(data, ip, now);
            &&& other != data[33] ==> (after.devices.contains_key(other)
                <==> client.devices.contains_key(other)) && (client.devices.contains_key(other)
                ==> after.devices[other] == client.devices[other])
            &&& after.cache == client.cache
            &&& after.pending == client.pending
            &&& after.packets == client.packets
            &&& after.last_error == client.last_error
            &&& after.our_device_id == client.our_device_id
            &&& other != data[33] ==> (after.last_track_change.contains_key(other)
                <==> client.last_track_change.contains_key(other)) && (
            client.last_track_change.contains_key(other) ==> after.last_track_change[other]
                == client.last_track_change[other])
        }),
{
}

/// A track change: a player reports a track that it did not have. The last record then
/// tells the deck, the player that holds the medium, the slot, the track, the tempo and the
/// master flag, all from the packet, and when it came. The wait before a fetch starts anew.
pub proof fn law_track_change(client: ClientView, data: Seq<u8>, ip: DeviceAddr, now: u64)
    requires
        client.history.len() <= 100,
        data.len() >= 124,
        1 <= data[33] <= 6,
        data[33] != client.our_device_id,
        data[0x2c] != 0 || data[0x2d] != 0 || data[0x2e] != 0 || data[0x2f] != 0,
        client.devices.contains_key(data[33]) ==> client.devices[data[33]].status.track_id
            != data[0x2c] * 16_777_216 + data[0x2d] * 65_536 + data[0x2e] * 256 + data[0x2f],
    ensures
        ({
            let after = client.with_cdj_status(data, ip, now);
            let record = after.history.last();
            let tempo = data[0x92] * 256 + data[0x93];
            &&& record.timestamp == now
            &&& record.deck == data[33]
            &&& record.source_device == data[0x28]
            &&& record.slot == data[0x29]
            &&& record.track_id == data[0x2c] * 16_777_216 + data[0x2d] * 65_536 + data[0x2e] * 256
                + data[0x2f]
            &&& record.is_master <==> data.len() > 0x89 && data[0x89] / 32 % 2 == 1
            &&& data.len() > 0x93 && 0 < tempo < 30_000 ==> record.bpm is Some
                && record.bpm.unwrap() == tempo
            &&& data.len() <= 0x93 || tempo == 0 || tempo >= 30_000 ==> record.bpm is None
            &&& client.history.len() < 100 ==> after.history.drop_last() == client.history
            &&& client.history.len() == 100 ==> after.history.drop_last()
                == client.history.drop_first()
            &&& after.last_track_change.contains_key(data[33])
            &&& after.last_track_change[data[33]] == now
        }),
{
    law_status_bytes(data);
    let after = client.with_cdj_status(data, ip, now);
    assert(client.history.len() < 100 ==> after.history.drop_last() =~= client.history);
    assert(client.history.len() == 100 ==> after.history.drop_last()
        =~= client.history.drop_first());
}

/// The record of a track change has the title and artist that the cache holds of just this
/// track, and none if the cache does not hold it.
pub proof fn law_track_change_has_known_metadata(
    client: ClientView,
    data: Seq<u8>,
    ip: DeviceAddr,
    now: u64,
    key: MetadataKey,
)
    requires
        client.history.len() <= 100,
        data.len() >= 124,
        1 <= data[33] <= 6,
        data[33] != client.our_device_id,
        key.device_id == data[0x28],
        key.slot == data[0x29],
        key.track_id == data[0x2c] * 16_777_216 + data[0x2d] * 65_536 + data[0x2e] * 256
            + data[0x2f],
        key.track_id != 0,
        client.devices.contains_key(data[33]) ==> client.devices[data[33]].status.track_id
            != key.track_id,
    ensures
        ({
            let record = client.with_cdj_status(data, ip, now).history.last();
            &&& client.cache.contains_key(key) ==> record.title == Some(client.cache[key].title)
                && record.artist == Some(client.cache[key].artist)
            &&& !client.cache.contains_key(key) ==> record.title is None && record.artist is None
        }),
{
    law_status_bytes(data);
    law_track_key(status_deck(data));
    assert(status_deck(data).spec_track_key() == key);
}

/// A packet that reports no track, or the track that the deck had, is no track change: the
/// history stays, and no wait starts.
pub proof fn law_no_track_change(client: ClientView, data: Seq<u8>, ip: DeviceAddr, now: u64)
    requires
        data.len() >= 124,
        ({
            let track = data[0x2c] * 16_777_216 + data[0x2d] * 65_536 + data[0x2e] * 256
                + data[0x2f];
            track == 0 || client.devices.contains_key(data[33])
                && client.devices[data[33]].status.track_id == track
        }),
    ensures
        client.with_cdj_status(data, ip, now).history == client.history,
        client.with_cdj_status(data, ip, now).last_track_change == client.last_track_change,
{
    law_status_bytes(data);
}

/// A mixer packet of 40 bytes or more sets the on-air flag of the decks 1 to 4, from one bit
/// of its byte 39 each.
pub proof fn law_mixer_packet(client: ClientView, data: Seq<u8>, id: u8)
    requires
        data.len() >= 40,
        client.devices.contains_key(id),
    ensures
        ({
            let before = client.devices[id];
            let after = client.with_mixer_on_air(data).devices[id];
            &&& client.with_mixer_on_air(data).devices.dom() == client.devices.dom()
            &&& id == 1 ==> (after.status.is_on_air <==> data[39] % 2 == 1)
            &&& id == 2 ==> (after.status.is_on_air <==> data[39] / 2 % 2 == 1)
            &&& id == 3 ==> (after.status.is_on_air <==> data[39] / 4 % 2 == 1)
            &&& id == 4 ==> (after.status.is_on_air <==> data[39] / 8 % 2 == 1)
            &&& id < 1 || id > 4 ==> after.status.is_on_air == before.status.is_on_air
            &&& after.device_id == before.device_id
            &&& after.name == before.name
            &&& after.ip == before.ip
            &&& after.last_seen == before.last_seen
            &&& after.status == (DeckStatus {
                is_on_air: after.status.is_on_air,
                ..before.status
            })
        }),
{
    let after = client.with_mixer_on_air(data).devices;
    assert(after.dom() =~= client.devices.dom());
    assert(after[id] == on_air_device(client.devices[id], id, data[39], 4));
    law_mixer_channels(data[39]);
}

/// A mixer packet changes devices only, and a shorter one nothing.
pub proof fn law_mixer_packet_touches_devices_only(client: ClientView, data: Seq<u8>)
    ensures
        ({
            let after = client.with_mixer_on_air(data);
            &&& data.len() < 40 ==> after == client
            &&& after.cache == client.cache && after.pending == client.pending
            &&& after.packets == client.packets && after.last_error == client.last_error
            &&& after.our_device_id == client.our_device_id
            &&& after.last_track_change == client.last_track_change
            &&& after.history == client.history
        }),
{
}

/// A waiting packet goes to the end of the queue, whose first leaves if there are more than
/// 50. The packet keeps its bytes and its source; byte 33 is the number it belongs to.
pub proof fn law_waiting_packet(client: ClientView, packet: DatagramView)
    ensures
        ({
            let after = client.with_packet(packet).packets;
            &&& client.packets.len() <= 50 ==> after.drop_last() == client.packets
            &&& client.packets.len() > 50 ==> after.drop_last() == client.packets.drop_first()
            &&& after.len() > 0
            &&& after.last().data == packet.data
            &&& after.last().source_ip == packet.source
            &&& packet.data.len() > 33 ==> after.last().device_id == packet.data[33]
            &&& packet.data.len() <= 33 ==> after.last().device_id == 0
            &&& client.with_packet(packet) == (ClientView { packets: after, ..client })
        }),
{
    let after = client.with_packet(packet).packets;
    assert(client.packets.len() <= 50 ==> after.drop_last() =~= client.packets);
    assert(client.packets.len() > 50 ==> after.drop_last() =~= client.packets.drop_first());
}

/// On the status port, type 10 is a player's status and type 64 a mixer's packet, which
/// waits and sets on-air flags. Anything else is ignored.
pub proof fn law_status_port(client: ClientView, packet: DatagramView, now: u64)
    ensures
        packet_type(packet.data) == Some(10u8) ==> client.with_status_packet(packet, now)
            == client.with_cdj_status(packet.data, packet.source, now),
        packet_type(packet.data) == Some(64u8) ==> {
            let after = client.with_status_packet(packet, now);
            &&& after.devices == client.with_mixer_on_air(packet.data).devices
            &&& after.packets == client.with_packet(packet).packets
            &&& after.history == client.history && after.cache == client.cache
            &&& after.pending == client.pending && after.last_error == client.last_error
            &&& after.our_device_id == client.our_device_id
            &&& after.last_track_change == client.last_track_change
        },
        packet_type(packet.data) != Some(10u8) && packet_type(packet.data) != Some(64u8)
            ==> client.with_status_packet(packet, now) == client,
{
    let after = client.with_status_packet(packet, now);
    if packet_type(packet.data) == Some(64u8) {
        assert(client.with_packet(packet).devices == client.devices);
        assert(after.devices =~= client.with_mixer_on_air(packet.data).devices);
    }
}

/// On the announcement port, a keep-alive packet (type 6, 54 bytes or more) of another
/// player, numbered 1 to 6 in its byte 36, says that the player is there.
pub proof fn law_announcement(client: ClientView, packet: DatagramView, now: u64)
    requires
        packet_type(packet.data) == Some(6u8),
        packet.data.len() >= 54,
        1 <= packet.data[36] <= 6,
        packet.data[36] != client.our_device_id,
    ensures
        ({
            let id = packet.data[36];
            let after = client.with_announcement(packet, now);
            let device = after.devices[id];
            &&& after.devices.dom() == client.devices.dom().insert(id)
            &&& device.last_seen == now
            &&& !client.devices.contains_key(id) ==> {
                &&& device.device_id == id
                &&& device.ip == packet.source
                &&& device.name == keep_alive_name(packet.data)
                &&& device.status == DeckStatus::unknown()
            }
            &&& client.devices.contains_key(id) ==> {
                let known = client.devices[id];
                &&& device.device_id == known.device_id
                &&& device.ip == known.ip
                &&& device.status == known.status
                &&& known.name.len() > 0 ==> device.name == known.name
                &&& known.name.len() == 0 ==> device.name == keep_alive_name(packet.data)
            }
        }),
{
    let id = packet.data[36];
    let after = client.with_announcement(packet, now);
    assert(after.devices.dom() =~= client.devices.dom().insert(id));
}

/// An announcement touches nothing but the one device, and other packets on that port touch
/// nothing.
pub proof fn law_announcement_touches_nothing_else(
    client: ClientView,
    packet: DatagramView,
    now: u64,
    other: u8,
)
    ensures
        ({
            let after = client.with_announcement(packet, now);
            &&& packet_type(packet.data) != Some(6u8) || packet.data.len() < 54 || packet.data[36]
                < 1 || packet.data[36] > 6 || packet.data[36] == client.our_device_id ==> after
                == client
            &&& other != packet.data[36] ==> (after.devices.contains_key(other)
                <==> client.devices.contains_key(other)) && (client.devices.contains_key(other)
                ==> after.devices[other] == client.devices[other])
            &&& after == (ClientView { devices: after.devices, ..client })
        }),
{
}

/// Pruning drops a device if and only if ten seconds have passed since it was last seen, and
/// changes nothing else.
pub proof fn law_pruning(client: ClientView, now: u64, id: u8)
    ensures
        ({
            let after = client.pruned(now);
            &&& after.devices.contains_key(id) <==> client.devices.contains_key(id) && now
                < client.devices[id].last_seen + 10_000_000_000
            &&& after.devices.contains_key(id) ==> after.devices[id] == client.devices[id]
            &&& after == (ClientView { devices: after.devices, ..client })
        }),
{
}

/// A fetch may start if none about the track runs, its metadata is not at hand, and 300 ms
/// have passed since the deck last changed its track.
pub proof fn law_may_fetch(client: ClientView, key: MetadataKey, deck: u8, now: u64)
    ensures
        client.may_fetch(key, deck, now) <==> !client.pending.contains(key)
            && !client.cache.contains_key(key) && (client.last_track_change.contains_key(deck)
            ==> now >= client.last_track_change[deck] + 300_000_000),
        client.with_fetch(key, deck, now) == (ClientView {
            pending: client.with_fetch(key, deck, now).pending,
            ..client
        }),
        client.may_fetch(key, deck, now) ==> client.with_fetch(key, deck, now).pending
            == client.pending.insert(key),
        !client.may_fetch(key, deck, now) ==> client.with_fetch(key, deck, now) == client,
{
}

/// What it means to store metadata: it is then what the cache holds of the track. A cache of
/// 500 tracks loses one first, and none that was fetched after another that stays.
pub proof fn law_storing(
    before: Map<MetadataKey, MetadataView>,
    after: Map<MetadataKey, MetadataView>,
    key: MetadataKey,
    metadata: MetadataView,
)
    requires
        stored(before, after, key, metadata),
    ensures
        after.contains_key(key),
        after[key] == metadata,
        forall|k: MetadataKey| #[trigger]
            after.contains_key(k) && k != key ==> before.contains_key(k) && after[k] == before[k],
        before.len() < 500 ==> forall|k: MetadataKey| #[trigger]
            before.contains_key(k) ==> after.contains_key(k),
        before.len() >= 500 ==> exists|gone: MetadataKey|
            #![trigger before.contains_key(gone)]
            before.contains_key(gone) && (gone != key ==> !after.contains_key(gone)) && (forall|
                k: MetadataKey,
            | #[trigger]
                before.contains_key(k) ==> before[gone].fetched_at <= before[k].fetched_at) && (
            forall|k: MetadataKey| #[trigger]
                before.contains_key(k) && k != gone ==> after.contains_key(k)),
{
    if before.len() >= 500 {
        let gone = choose|old: MetadataKey| #[trigger]
            is_oldest(before, old) && after == before.remove(old).insert(key, metadata);
        assert(before.contains_key(gone));
    }
}

/// Metadata that is told reaches every record of the track without a title, with both texts,
/// and no other.
pub proof fn law_history_metadata(
    client: ClientView,
    track_id: u32,
    title: Seq<char>,
    artist: Seq<char>,
    i: int,
)
    requires
        0 <= i < client.history.len(),
    ensures
        ({
            let all = client.with_history_metadata(track_id, title, artist);
            let before = client.history[i];
            let after = all.history[i];
            &&& all.history.len() == client.history.len()
            &&& before.track_id == track_id && before.title is None ==> after.title == Some(title)
                && after.artist == Some(artist)
            &&& before.track_id != track_id || before.title is Some ==> after == before
            &&& after == (RecordView { title: after.title, artist: after.artist, ..before })
            &&& all == (ClientView { history: all.history, ..client })
        }),
{
}

/// Which waiting packets may answer a question to a player: those that carry its number or
/// come from its address, in the order in which they came.
pub proof fn law_answers(
    packets: Seq<PacketView>,
    last: PacketView,
    device_id: u8,
    device_ip: DeviceAddr,
)
    ensures
        packets_for(Seq::empty(), device_id, device_ip) == Seq::<Seq<u8>>::empty(),
        last.device_id == device_id || last.source_ip == device_ip ==> packets_for(
            packets.push(last),
            device_id,
            device_ip,
        ) == packets_for(packets, device_id, device_ip).push(last.data),
        last.device_id != device_id && last.source_ip != device_ip ==> packets_for(
            packets.push(last),
            device_id,
            device_ip,
        ) == packets_for(packets, device_id, device_ip),
{
    assert(packets.push(last).drop_last() =~= packets);
}

} // verus!
