//! The mathematical model of what the client knows, and of how each event changes it.

use crate::cache::CACHE_SIZE;
use crate::fetch::elapsed;
use crate::model::{
    DeckStatus, DatagramView, DeviceAddr, DeviceView, FetchRequest, InfoView, MetadataKey,
    MetadataView, RecordView, TrackView,
};
use crate::packet::{
    channel_on_air, is_player_id, keep_alive_id, keep_alive_name, packet_type, status_deck,
    status_name, PACKET_TYPE_CDJ_STATUS, PACKET_TYPE_MIXER,
};
use crate::text::{decimal, joined};
use vstd::prelude::*;

verus! {

/// The history holds at most this many track changes.
pub const HISTORY_SIZE: usize = 100;

/// A mixer packet is added after the oldest has left a queue longer than this.
pub const PACKET_QUEUE_SIZE: usize = 50;

/// A device is forgotten once it has been silent for this long, in nanoseconds.
pub const DEVICE_TIMEOUT: u64 = 10_000_000_000;

/// Metadata is not fetched before a track has been loaded for this long, in nanoseconds.
pub const DEBOUNCE_DELAY: u64 = 300_000_000;

/// A mixer packet that waits to be looked at.
#[verifier::ext_equal]
pub struct PacketView {
    pub data: Seq<u8>,
    pub source_ip: DeviceAddr,
    pub device_id: u8,
}

/// What the client knows.
#[verifier::ext_equal]
pub struct ClientView {
    /// The devices on the network, by number.
    pub devices: Map<u8, DeviceView>,
    /// The metadata at hand, by track.
    pub cache: Map<MetadataKey, MetadataView>,
    /// The tracks whose metadata is being fetched.
    pub pending: Set<MetadataKey>,
    pub last_error: Option<Seq<char>>,
    /// The mixer packets that came in, oldest first.
    pub packets: Seq<PacketView>,
    /// Our own number on the network.
    pub our_device_id: u8,
    /// When each deck last changed its track.
    pub last_track_change: Map<u8, u64>,
    /// The track changes, oldest first.
    pub history: Seq<RecordView>,
}

/// The numbers up to `upto` that `ids` holds, in ascending order.
pub open spec fn ascending(ids: Set<u8>, upto: nat) -> Seq<u8>
    decreases upto,
{
    if upto == 0 {
        Seq::empty()
    } else if ids.contains(upto as u8) {
        ascending(ids, (upto - 1) as nat).push(upto as u8)
    } else {
        ascending(ids, (upto - 1) as nat)
    }
}

/// `device` as the on-air flags in `mask` leave it: mixer channels 1 to `channels` are
/// the players of the same number.
pub open spec fn on_air_device(device: DeviceView, id: u8, mask: u8, channels: int) -> DeviceView {
    if 1 <= id <= channels {
        DeviceView {
            status: DeckStatus { is_on_air: channel_on_air(mask, id), ..device.status },
            ..device
        }
    } else {
        device
    }
}

/// `history` with `record` added; a full history first loses its oldest record.
pub open spec fn history_with(history: Seq<RecordView>, record: RecordView) -> Seq<RecordView> {
    if history.len() >= HISTORY_SIZE {
        history.drop_first().push(record)
    } else {
        history.push(record)
    }
}

/// `record` once the metadata of track `track_id` is known: a record of that track
/// without a title gets both texts.
pub open spec fn record_with_metadata(
    record: RecordView,
    track_id: u32,
    title: Seq<char>,
    artist: Seq<char>,
) -> RecordView {
    if record.track_id == track_id && record.title is None {
        RecordView { title: Some(title), artist: Some(artist), ..record }
    } else {
        record
    }
}

/// The packets among `packets` that may answer a question to player `device_id` at
/// `device_ip`.
pub open spec fn packets_for(
    packets: Seq<PacketView>,
    device_id: u8,
    device_ip: DeviceAddr,
) -> Seq<Seq<u8>>
    decreases packets.len(),
{
    if packets.len() == 0 {
        Seq::empty()
    } else {
        let before = packets_for(packets.drop_last(), device_id, device_ip);
        if packets.last().device_id == device_id || packets.last().source_ip == device_ip {
            before.push(packets.last().data)
        } else {
            before
        }
    }
}

/// The flags shown behind a device's name.
pub open spec fn deck_flags(status: DeckStatus) -> Seq<char> {
    (if status.is_master {
        "[M]"@
    } else {
        ""@
    }) + (if status.is_playing {
        "[play]"@
    } else {
        ""@
    }) + (if status.is_looping {
        "[loop]"@
    } else {
        ""@
    })
}

/// A device in the status message: its name, and its flags if there are any.
pub open spec fn device_label(device: DeviceView) -> Seq<char> {
    if device.status.is_master || device.status.is_playing || device.status.is_looping {
        device.name + " "@ + deck_flags(device.status)
    } else {
        device.name
    }
}

impl ClientView {
    /// A client that has heard nothing yet.
    pub open spec fn initial() -> ClientView {
        ClientView {
            devices: Map::empty(),
            cache: Map::empty(),
            pending: Set::empty(),
            last_error: None,
            packets: Seq::empty(),
            our_device_id: 6,
            last_track_change: Map::empty(),
            history: Seq::empty(),
        }
    }

    /// What holds of every client: devices have player numbers and stand under their own;
    /// a deck has a track if and only if it has a track id; cache, queue and history keep
    /// their bounds; the history tells of tracks on players; we have a number of our own.
    pub open spec fn inv(self) -> bool {
        &&& forall|id: u8| #[trigger]
            self.devices.contains_key(id) ==> {
                &&& is_player_id(id)
                &&& self.devices[id].device_id == id
                &&& self.devices[id].status.track_loaded == (self.devices[id].status.track_id != 0)
            }
        &&& self.cache.dom().finite()
        &&& self.cache.len() <= CACHE_SIZE
        &&& self.packets.len() <= PACKET_QUEUE_SIZE + 1
        &&& self.history.len() <= HISTORY_SIZE
        &&& forall|i: int|
            0 <= i < self.history.len() ==> is_player_id((#[trigger] self.history[i]).deck)
                && self.history[i].track_id != 0
        &&& 1 <= self.our_device_id <= 7
    }

    /// The devices after a mixer packet: shorter packets than 0x28 bytes say nothing.
    pub open spec fn with_mixer_on_air(self, data: Seq<u8>) -> ClientView {
        if data.len() < 0x28 {
            self
        } else {
            ClientView {
                devices: self.devices.map_entries(
                    |id: u8, d: DeviceView| on_air_device(d, id, data[0x27], 4),
                ),
                ..self
            }
        }
    }

    /// Whether a status packet tells of another player.
    pub open spec fn accepts_status(self, data: Seq<u8>) -> bool {
        data.len() >= 0x7c && is_player_id(data[0x21]) && data[0x21] != self.our_device_id
    }

    /// Whether a deck that reports `track_id` has changed its track.
    pub open spec fn track_changed(self, id: u8, track_id: u32) -> bool {
        track_id != 0 && (self.devices.contains_key(id) ==> self.devices[id].status.track_id
            != track_id)
    }

    /// The record of a track change on deck `id`, with the metadata that is at hand.
    pub open spec fn change_record(self, id: u8, status: DeckStatus, now: u64) -> RecordView {
        let key = status.spec_track_key();
        RecordView {
            timestamp: now,
            deck: id,
            track_id: status.track_id,
            source_device: status.track_device_id,
            slot: status.track_slot,
            title: if self.cache.contains_key(key) {
                Some(self.cache[key].title)
            } else {
                None
            },
            artist: if self.cache.contains_key(key) {
                Some(self.cache[key].artist)
            } else {
                None
            },
            bpm: status.bpm,
            is_master: status.is_master,
        }
    }

    /// After a player's status packet: the device is as the packet says, and a track
    /// change is noted. Our own number and numbers that are no player's are ignored.
    pub open spec fn with_cdj_status(self, data: Seq<u8>, ip: DeviceAddr, now: u64) -> ClientView {
        if !self.accepts_status(data) {
            self
        } else {
            let id = data[0x21];
            let status = status_deck(data);
            let changed = self.track_changed(id, status.track_id);
            ClientView {
                devices: self.devices.insert(
                    id,
                    DeviceView {
                        device_id: id,
                        name: status_name(data),
                        ip,
                        last_seen: now,
                        status,
                    },
                ),
                last_track_change: if changed {
                    self.last_track_change.insert(id, now)
                } else {
                    self.last_track_change
                },
                history: if changed {
                    history_with(self.history, self.change_record(id, status, now))
                } else {
                    self.history
                },
                ..self
            }
        }
    }

    /// After a mixer packet was put in the queue.
    pub open spec fn with_packet(self, packet: DatagramView) -> ClientView {
        let queue = if self.packets.len() > PACKET_QUEUE_SIZE {
            self.packets.drop_first()
        } else {
            self.packets
        };
        ClientView {
            packets: queue.push(
                PacketView {
                    data: packet.data,
                    source_ip: packet.source,
                    device_id: if packet.data.len() >= 0x22 {
                        packet.data[0x21]
                    } else {
                        0
                    },
                },
            ),
            ..self
        }
    }

    /// After a packet on the status port: other packets than those of players and mixers
    /// change nothing.
    pub open spec fn with_status_packet(self, packet: DatagramView, now: u64) -> ClientView {
        if packet_type(packet.data) == Some(PACKET_TYPE_CDJ_STATUS) {
            self.with_cdj_status(packet.data, packet.source, now)
        } else if packet_type(packet.data) == Some(PACKET_TYPE_MIXER) {
            self.with_packet(packet).with_mixer_on_air(packet.data)
        } else {
            self
        }
    }

    /// What a keep-alive packet makes of the device that sent it: a new device has no
    /// status yet; a known one was just seen, and gets a name if it had none.
    pub open spec fn announced_device(self, packet: DatagramView, now: u64) -> DeviceView {
        let id = packet.data[0x24];
        let name = keep_alive_name(packet.data);
        if self.devices.contains_key(id) {
            let known = self.devices[id];
            DeviceView {
                last_seen: now,
                name: if known.name.len() == 0 {
                    name
                } else {
                    known.name
                },
                ..known
            }
        } else {
            DeviceView {
                device_id: id,
                name,
                ip: packet.source,
                last_seen: now,
                status: DeckStatus::unknown(),
            }
        }
    }

    /// After a packet on the announcement port: only keep-alives of other players matter.
    pub open spec fn with_announcement(self, packet: DatagramView, now: u64) -> ClientView {
        match keep_alive_id(packet.data) {
            Some(id) if id != self.our_device_id => ClientView {
                devices: self.devices.insert(id, self.announced_device(packet, now)),
                ..self
            },
            _ => self,
        }
    }

    /// Without the devices that have been silent for too long.
    pub open spec fn pruned(self, now: u64) -> ClientView {
        ClientView {
            devices: self.devices.filter_keys(
                |id: u8| elapsed(self.devices[id].last_seen, now) < DEVICE_TIMEOUT,
            ),
            ..self
        }
    }

    /// Whether a fetch about `key` may start now on behalf of deck `deck`: not while one
    /// runs, not if the answer is at hand, and not too soon after a track change.
    pub open spec fn may_fetch(self, key: MetadataKey, deck: u8, now: u64) -> bool {
        &&& !self.pending.contains(key)
        &&& !self.cache.contains_key(key)
        &&& self.last_track_change.contains_key(deck) ==> elapsed(
            self.last_track_change[deck],
            now,
        ) >= DEBOUNCE_DELAY
    }

    /// After a fetch about `key` was asked for on behalf of deck `deck`.
    pub open spec fn with_fetch(self, key: MetadataKey, deck: u8, now: u64) -> ClientView {
        if self.may_fetch(key, deck, now) {
            ClientView { pending: self.pending.insert(key), ..self }
        } else {
            self
        }
    }

    /// The address of the player that holds the track on deck `id`: that of the deck itself
    /// if that player is not known.
    pub open spec fn source_ip(self, id: u8) -> DeviceAddr {
        let source = self.devices[id].status.track_device_id;
        if self.devices.contains_key(source) {
            self.devices[source].ip
        } else {
            self.devices[id].ip
        }
    }

    /// The fetch about the track on deck `id`.
    pub open spec fn deck_request(self, id: u8) -> FetchRequest {
        FetchRequest {
            device_ip: self.source_ip(id),
            key: self.devices[id].status.spec_track_key(),
        }
    }

    /// Whether deck `id` has a track to ask about.
    pub open spec fn has_track(self, id: u8) -> bool {
        self.devices[id].status.track_loaded && self.devices[id].status.track_id != 0
    }

    /// After fetches were asked for on behalf of the decks `ids`, in turn.
    pub open spec fn with_fetches(self, ids: Seq<u8>, now: u64) -> ClientView
        decreases ids.len(),
    {
        if ids.len() == 0 {
            self
        } else {
            let before = self.with_fetches(ids.drop_last(), now);
            let id = ids.last();
            if self.has_track(id) {
                before.with_fetch(self.deck_request(id).key, id, now)
            } else {
                before
            }
        }
    }

    /// The fetches that start when they are asked for on behalf of the decks `ids`, in turn.
    pub open spec fn requests(self, ids: Seq<u8>, now: u64) -> Seq<FetchRequest>
        decreases ids.len(),
    {
        if ids.len() == 0 {
            Seq::empty()
        } else {
            let earlier = self.requests(ids.drop_last(), now);
            let before = self.with_fetches(ids.drop_last(), now);
            let id = ids.last();
            if self.has_track(id) && before.may_fetch(self.deck_request(id).key, id, now) {
                earlier.push(self.deck_request(id))
            } else {
                earlier
            }
        }
    }

    /// The numbers of the devices, in ascending order.
    pub open spec fn device_ids(self) -> Seq<u8> {
        ascending(self.devices.dom(), 6)
    }

    /// Whether deck `id` is master and has a track.
    pub open spec fn is_master_deck(self, id: u8) -> bool {
        self.devices.contains_key(id) && self.devices[id].status.is_master
            && self.devices[id].status.track_loaded
    }

    /// The lowest-numbered deck, from `from` on, that is master and has a track.
    pub open spec fn master_from(self, from: int) -> Option<u8>
        decreases 7 - from,
    {
        if from > 6 {
            None
        } else if self.is_master_deck(from as u8) {
            Some(from as u8)
        } else {
            self.master_from(from + 1)
        }
    }

    /// What is reported of the track on deck `id`.
    pub open spec fn track_on(self, id: u8) -> TrackView {
        let device = self.devices[id];
        let key = device.status.spec_track_key();
        let known = self.cache.contains_key(key);
        let metadata = self.cache[key];
        TrackView {
            title: if known {
                metadata.title
            } else {
                "Track "@ + decimal(device.status.track_id as nat)
            },
            artist: if known {
                metadata.artist
            } else {
                device.name
            },
            album: if known {
                metadata.album
            } else {
                None
            },
            duration: if known {
                metadata.duration
            } else {
                None
            },
            position: None,
            is_playing: device.status.is_playing,
            bpm: device.status.bpm,
            source: "Pioneer CDJ"@,
            deck: Some(id),
            artwork: None,
        }
    }

    /// What is shown of our own place on the network.
    pub open spec fn own_info(self) -> InfoView {
        InfoView {
            device_id: self.our_device_id,
            name: "REACT (ID "@ + decimal(self.our_device_id as nat) + ")"@,
            ip: DeviceAddr::V4(0x7f00_0001),
            track_loaded: false,
            is_playing: false,
            is_looping: false,
            is_master: false,
            is_on_air: false,
            bpm: None,
            track_title: None,
            track_artist: None,
        }
    }

    /// What is shown of device `id`.
    pub open spec fn device_info(self, id: u8) -> InfoView {
        let device = self.devices[id];
        let key = device.status.spec_track_key();
        let known = self.cache.contains_key(key);
        InfoView {
            device_id: device.device_id,
            name: device.name,
            ip: device.ip,
            track_loaded: device.status.track_loaded,
            is_playing: device.status.is_playing,
            is_looping: device.status.is_looping,
            is_master: device.status.is_master,
            is_on_air: device.status.is_on_air,
            bpm: device.status.bpm,
            track_title: if known {
                Some(self.cache[key].title)
            } else {
                None
            },
            track_artist: if known {
                Some(self.cache[key].artist)
            } else {
                None
            },
        }
    }

    /// The numbers that are shown: ours among those of the devices, in ascending order.
    pub open spec fn shown_ids(self) -> Seq<u8> {
        ascending(self.devices.dom().insert(self.our_device_id), 7)
    }

    /// What is shown of everybody on the network, by number.
    pub open spec fn infos(self) -> Seq<InfoView> {
        Seq::new(
            self.shown_ids().len(),
            |i: int|
                {
                    let id = self.shown_ids()[i];
                    if id == self.our_device_id {
                        self.own_info()
                    } else {
                        self.device_info(id)
                    }
                },
        )
    }

    /// The status message.
    pub open spec fn status_message(self) -> Seq<char> {
        match self.last_error {
            Some(error) => "CDJ: "@ + error,
            None => if self.devices.len() == 0 {
                "CDJ: Scanning network..."@
            } else {
                "CDJ: "@ + decimal(self.devices.len()) + " ("@ + joined(
                    Seq::new(
                        self.device_ids().len(),
                        |i: int| device_label(self.devices[self.device_ids()[i]]),
                    ),
                    ", "@,
                ) + ")"@
            },
        }
    }

    /// After the history was told the metadata of a track.
    pub open spec fn with_history_metadata(
        self,
        track_id: u32,
        title: Seq<char>,
        artist: Seq<char>,
    ) -> ClientView {
        ClientView {
            history: self.history.map_values(
                |r: RecordView| record_with_metadata(r, track_id, title, artist),
            ),
            ..self
        }
    }
}

} // verus!
