//! What the client reports, told by what it knows.

use crate::laws::client::{law_listed_devices, law_master_deck};
use crate::model::{DeviceAddr, MetadataKey};
use crate::packet::is_player_id;
use crate::state::{device_label, ClientView};
use crate::text::{decimal, joined};
use vstd::prelude::*;

verus! {

/// The current track is that of a deck that is master and has a track loaded, and of the
/// lowest-numbered such deck. Where no deck is both, there is none.
pub proof fn law_current_track(client: ClientView)
    requires
        client.inv(),
    ensures
        client.master_from(1) matches Some(id) ==> client.devices.contains_key(id)
            && client.devices[id].status.is_master && client.devices[id].status.track_loaded,
        client.master_from(1) matches Some(id) ==> forall|other: u8|
            #![trigger client.devices.contains_key(other)]
            client.devices.contains_key(other) && client.devices[other].status.is_master
                && client.devices[other].status.track_loaded ==> id <= other,
        client.master_from(1) is None ==> forall|id: u8|
            #![trigger client.devices.contains_key(id)]
            client.devices.contains_key(id) && client.devices[id].status.is_master
                ==> !client.devices[id].status.track_loaded,
{
    law_master_deck(client, 1);
    assert forall|other: u8|
        #![trigger client.devices.contains_key(other)]
        client.devices.contains_key(other) && client.devices[other].status.is_master
            && client.devices[other].status.track_loaded implies client.is_master_deck(other)
        && 1 <= other by {
        assert(is_player_id(other));
    }
}

/// What is reported of the track on a deck: title and artist from the metadata of just this
/// track, or else the track id and the device's name; tempo and play state from the deck.
pub proof fn law_reported_track(client: ClientView, id: u8, key: MetadataKey)
    requires
        key.device_id == client.devices[id].status.track_device_id,
        key.slot == client.devices[id].status.track_slot,
        key.track_id == client.devices[id].status.track_id,
    ensures
        ({
            let track = client.track_on(id);
            let device = client.devices[id];
            &&& client.cache.contains_key(key) ==> track.title == client.cache[key].title
                && track.artist == client.cache[key].artist && track.album
                == client.cache[key].album && track.duration == client.cache[key].duration
            &&& !client.cache.contains_key(key) ==> track.title == "Track "@ + decimal(
                device.status.track_id as nat,
            ) && track.artist == device.name && track.album is None && track.duration is None
            &&& track.position is None
            &&& track.is_playing == device.status.is_playing
            &&& track.bpm == device.status.bpm
            &&& track.source == "Pioneer CDJ"@
            &&& track.deck == Some(id)
            &&& track.artwork is None
        }),
{
    assert(client.devices[id].status.spec_track_key() == key);
}

/// A fetch about a deck's track goes to the player that holds the medium, if that is known,
/// and else to the deck itself.
pub proof fn law_whom_to_ask(client: ClientView, id: u8)
    ensures
        ({
            let status = client.devices[id].status;
            let request = client.deck_request(id);
            &&& request.key.device_id == status.track_device_id
            &&& request.key.slot == status.track_slot
            &&& request.key.track_id == status.track_id
            &&& client.devices.contains_key(status.track_device_id) ==> request.device_ip
                == client.devices[status.track_device_id].ip
            &&& !client.devices.contains_key(status.track_device_id) ==> request.device_ip
                == client.devices[id].ip
        }),
{
}

/// The fetches that start are about tracks on known decks, each after its wait, and none
/// that runs or whose metadata is at hand.
pub proof fn law_requests_are_called_for(client: ClientView, now: u64, i: int)
    requires
        client.inv(),
        0 <= i < client.requests(client.device_ids(), now).len(),
    ensures
        ({
            let request = client.requests(client.device_ids(), now)[i];
            &&& !client.pending.contains(request.key)
            &&& !client.cache.contains_key(request.key)
            &&& exists|id: u8|
                #![trigger client.devices.contains_key(id)]
                client.devices.contains_key(id) && client.devices[id].status.track_id != 0
                    && request == client.deck_request(id) && (
                client.last_track_change.contains_key(id) ==> now >= client.last_track_change[id]
                    + 300_000_000)
        }),
{
    law_listed_devices(client);
    lemma_requests(client, client.device_ids(), now, i);
    let id = choose|id: u8|
        client.device_ids().contains(id) && client.has_track(id)
            && client.requests(client.device_ids(), now)[i] == #[trigger] client.deck_request(id)
            && (client.last_track_change.contains_key(id) ==> now >= client.last_track_change[id]
            + 300_000_000);
    assert(client.devices.contains_key(id));
}

/// Where a request comes from.
proof fn lemma_requests(client: ClientView, ids: Seq<u8>, now: u64, i: int)
    requires
        0 <= i < client.requests(ids, now).len(),
    ensures
        !client.pending.contains(client.requests(ids, now)[i].key),
        !client.cache.contains_key(client.requests(ids, now)[i].key),
        exists|id: u8|
            ids.contains(id) && client.has_track(id) && client.requests(ids, now)[i]
                == #[trigger] client.deck_request(id) && (client.last_track_change.contains_key(id)
                ==> now >= client.last_track_change[id] + 300_000_000),
    decreases ids.len(),
{
    if ids.len() > 0 {
        let fewer = ids.drop_last();
        lemma_pending(client, fewer, now);
        if i < client.requests(fewer, now).len() {
            lemma_requests(client, fewer, now, i);
            let id = choose|id: u8|
                fewer.contains(id) && client.has_track(id) && client.requests(fewer, now)[i]
                    == #[trigger] client.deck_request(id) && (
                client.last_track_change.contains_key(id) ==> now >= client.last_track_change[id]
                    + 300_000_000);
            let at = fewer.index_of(id);
            assert(ids[at] == id);
        } else {
            let id = ids.last();
            assert(ids[ids.len() - 1] == id);
            assert(client.requests(ids, now)[i] == client.deck_request(id));
        }
    }
}

/// What is pending after fetches were asked for, and that nothing else changes.
proof fn lemma_pending(client: ClientView, ids: Seq<u8>, now: u64)
    ensures
        client.with_fetches(ids, now) == (ClientView {
            pending: client.with_fetches(ids, now).pending,
            ..client
        }),
        forall|key: MetadataKey| #[trigger]
            client.with_fetches(ids, now).pending.contains(key) <==> client.pending.contains(key)
                || exists|i: int|
                0 <= i < client.requests(ids, now).len() && (#[trigger] client.requests(
                    ids,
                    now,
                )[i]).key == key,
    decreases ids.len(),
{
    if ids.len() > 0 {
        let fewer = ids.drop_last();
        let id = ids.last();
        lemma_pending(client, fewer, now);
        let before = client.with_fetches(fewer, now);
        let earlier = client.requests(fewer, now);
        let all = client.requests(ids, now);
        let key = client.deck_request(id).key;
        let starts = client.has_track(id) && before.may_fetch(key, id, now);
        assert forall|k: MetadataKey| #[trigger]
            client.with_fetches(ids, now).pending.contains(k) <==> client.pending.contains(k)
                || exists|i: int| 0 <= i < all.len() && (#[trigger] all[i]).key == k by {
            if exists|i: int| 0 <= i < earlier.len() && (#[trigger] earlier[i]).key == k {
                let i = choose|i: int| 0 <= i < earlier.len() && (#[trigger] earlier[i]).key == k;
                assert(all[i] == earlier[i]);
            }
            if starts && k == key {
                assert(all[all.len() - 1].key == key);
            }
            if exists|i: int| 0 <= i < all.len() && (#[trigger] all[i]).key == k {
                let i = choose|i: int| 0 <= i < all.len() && (#[trigger] all[i]).key == k;
                if i < earlier.len() {
                    assert(earlier[i] == all[i]);
                }
            }
        }
    }
}

/// Every loaded track is asked about: where its metadata is not at hand, no fetch runs and
/// the deck's wait is over, a fetch about it starts.
pub proof fn law_loaded_tracks_are_asked_about(
    client: ClientView,
    now: u64,
    id: u8,
    key: MetadataKey,
)
    requires
        client.inv(),
        client.devices.contains_key(id),
        client.devices[id].status.track_id != 0,
        key.device_id == client.devices[id].status.track_device_id,
        key.slot == client.devices[id].status.track_slot,
        key.track_id == client.devices[id].status.track_id,
        !client.pending.contains(key),
        !client.cache.contains_key(key),
        client.last_track_change.contains_key(id) ==> now >= client.last_track_change[id]
            + 300_000_000,
    ensures
        exists|i: int|
            0 <= i < client.requests(client.device_ids(), now).len() && (
            #[trigger] client.requests(client.device_ids(), now)[i]).key == key,
{
    law_listed_devices(client);
    let ids = client.device_ids();
    assert(client.deck_request(id).key == key);
    lemma_asked(client, ids, now, id);
    lemma_pending(client, ids, now);
    assert(client.with_fetches(ids, now).pending.contains(key));
}

/// A deck that is asked for has its track pending after.
proof fn lemma_asked(client: ClientView, ids: Seq<u8>, now: u64, id: u8)
    requires
        ids.contains(id),
        client.has_track(id),
        !client.cache.contains_key(client.deck_request(id).key),
        client.last_track_change.contains_key(id) ==> now >= client.last_track_change[id]
            + 300_000_000,
    ensures
        client.with_fetches(ids, now).pending.contains(client.deck_request(id).key),
    decreases ids.len(),
{
    let fewer = ids.drop_last();
    lemma_pending(client, fewer, now);
    if ids.last() != id {
        let at = ids.index_of(id);
        assert(fewer[at] == id);
        lemma_asked(client, fewer, now, id);
    }
}

/// After the list was asked for, the tracks that are pending are those from before and those
/// that fetches start about. Nothing else changed.
pub proof fn law_started_fetches_are_pending(client: ClientView, now: u64, key: MetadataKey)
    ensures
        ({
            let ids = client.device_ids();
            let after = client.with_fetches(ids, now);
            &&& after == (ClientView { pending: after.pending, ..client })
            &&& after.pending.contains(key) <==> client.pending.contains(key) || exists|i: int|
                0 <= i < client.requests(ids, now).len() && (#[trigger] client.requests(
                    ids,
                    now,
                )[i]).key == key
        }),
{
    lemma_pending(client, client.device_ids(), now);
}

/// What is shown of a device: what is known of it, and title and artist from the metadata of
/// just its track, if that is at hand.
pub proof fn law_shown_device(client: ClientView, id: u8, key: MetadataKey)
    requires
        key.device_id == client.devices[id].status.track_device_id,
        key.slot == client.devices[id].status.track_slot,
        key.track_id == client.devices[id].status.track_id,
    ensures
        ({
            let info = client.device_info(id);
            let device = client.devices[id];
            &&& info.device_id == device.device_id
            &&& info.name == device.name
            &&& info.ip == device.ip
            &&& info.track_loaded == device.status.track_loaded
            &&& info.is_playing == device.status.is_playing
            &&& info.is_looping == device.status.is_looping
            &&& info.is_master == device.status.is_master
            &&& info.is_on_air == device.status.is_on_air
            &&& info.bpm == device.status.bpm
            &&& client.cache.contains_key(key) ==> info.track_title == Some(
                client.cache[key].title,
            ) && info.track_artist == Some(client.cache[key].artist)
            &&& !client.cache.contains_key(key) ==> info.track_title is None
                && info.track_artist is None
        }),
{
    assert(client.devices[id].status.spec_track_key() == key);
}

/// What is shown of ourselves: our number, at this machine, and an idle deck.
pub proof fn law_shown_self(client: ClientView)
    ensures
        ({
            let info = client.own_info();
            &&& info.device_id == client.our_device_id
            &&& info.name == "REACT (ID "@ + decimal(client.our_device_id as nat) + ")"@
            &&& info.ip == DeviceAddr::V4(2_130_706_433)
            &&& !info.track_loaded && !info.is_playing && !info.is_looping && !info.is_master
                && !info.is_on_air
            &&& info.bpm is None && info.track_title is None && info.track_artist is None
        }),
{
}

/// The status message: the error if there is one, that we scan if nobody is known, and else
/// how many devices there are and, by number, each with its name and its flags.
pub proof fn law_status_message(client: ClientView, labels: Seq<Seq<char>>)
    requires
        client.inv(),
        labels.len() == client.device_ids().len(),
        forall|i: int|
            0 <= i < labels.len() ==> {
                let device = client.devices[client.device_ids()[i]];
                let flags = (if device.status.is_master {
                    "[M]"@
                } else {
                    Seq::<char>::empty()
                }) + (if device.status.is_playing {
                    "[play]"@
                } else {
                    Seq::<char>::empty()
                }) + (if device.status.is_looping {
                    "[loop]"@
                } else {
                    Seq::<char>::empty()
                });
                #[trigger] labels[i] == if flags.len() == 0 {
                    device.name
                } else {
                    device.name + " "@ + flags
                }
            },
    ensures
        client.last_error matches Some(error) ==> client.status_message() == "CDJ: "@ + error,
        client.last_error is None && client.devices.len() == 0 ==> client.status_message()
            == "CDJ: Scanning network..."@,
        client.last_error is None && client.devices.len() > 0 ==> client.status_message()
            == "CDJ: "@ + decimal(client.devices.len()) + " ("@ + joined(labels, ", "@) + ")"@,
{
    reveal_strlit("");
    reveal_strlit("[M]");
    reveal_strlit("[play]");
    reveal_strlit("[loop]");
    let ids = client.device_ids();
    let all = Seq::new(ids.len(), |i: int| device_label(client.devices[ids[i]]));
    assert forall|i: int| 0 <= i < labels.len() implies #[trigger] labels[i] == all[i] by {
        let device = client.devices[ids[i]];
        assert(labels[i] =~= device_label(device));
    }
    assert(labels =~= all);
}

} // verus!
