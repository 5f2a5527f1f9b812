//! The client: what was heard on the link, and what is reported of it.

use crate::bytes::copy_bytes;
use crate::cache::{stored, MetadataCache, PendingFetches};
use crate::dbserver::packet_views;
use crate::fetch::{elapsed, time_since};
use crate::model::{
    copy_text, info_views, record_views, text_of, CDJDevice, CdjDeviceInfo, Datagram, DeckStatus,
    DeviceAddr, DeviceView, FetchRequest, MetadataKey, TrackChangeRecord, TrackInfo,
    TrackMetadata,
};
use crate::packet::{
    is_player_id, read_channel_on_air, read_keep_alive_id, read_keep_alive_name, read_packet_type,
    read_status_deck, read_status_name, PACKET_TYPE_CDJ_STATUS, PACKET_TYPE_MIXER,
};
use crate::state::{
    ascending, deck_flags, device_label, history_with, on_air_device, packets_for, ClientView,
    PacketView, DEBOUNCE_DELAY, DEVICE_TIMEOUT, HISTORY_SIZE, PACKET_QUEUE_SIZE,
};
use crate::text::{decimal_text, join_text};
use std::collections::HashMap;
use vstd::prelude::*;
use vstd::string::StringExecFns;

verus! {

broadcast use vstd::std_specs::hash::group_hash_axioms;

/// A mixer packet that waits to be looked at.
struct PendingUdpPacket {
    data: Vec<u8>,
    source_ip: DeviceAddr,
    device_id: u8,
}

/// What was heard on the link, and what is known of the tracks.
pub struct ProDjLinkClient {
    devices: HashMap<u8, CDJDevice>,
    metadata_cache: MetadataCache,
    pending_fetches: PendingFetches,
    last_error: Option<String>,
    pending_metadata_packets: Vec<PendingUdpPacket>,
    our_device_id: u8,
    last_track_change: HashMap<u8, u64>,
    track_history: Vec<TrackChangeRecord>,
}

/// Another name for the client.
pub type ProDjLinkSource = ProDjLinkClient;

/// The views of the devices.
spec fn device_views(devices: Map<u8, CDJDevice>) -> Map<u8, DeviceView> {
    devices.map_values(|d: CDJDevice| d@)
}

/// The views of the waiting packets.
spec fn queue_views(packets: Seq<PendingUdpPacket>) -> Seq<PacketView> {
    Seq::new(
        packets.len(),
        |i: int|
            PacketView {
                data: packets[i].data@,
                source_ip: packets[i].source_ip,
                device_id: packets[i].device_id,
            },
    )
}

impl View for ProDjLinkClient {
    type V = ClientView;

    closed spec fn view(&self) -> ClientView {
        ClientView {
            devices: device_views(self.devices@),
            cache: self.metadata_cache@,
            pending: self.pending_fetches@,
            last_error: text_of(self.last_error),
            packets: queue_views(self.pending_metadata_packets@),
            our_device_id: self.our_device_id,
            last_track_change: self.last_track_change@,
            history: record_views(self.track_history@),
        }
    }
}

/// A set of player numbers has six members at most.
proof fn lemma_player_count(ids: Set<u8>)
    requires
        forall|id: u8| #[trigger] ids.contains(id) ==> is_player_id(id),
    ensures
        ids.finite(),
        ids.len() <= 6,
{
    let all = set![1u8, 2u8, 3u8, 4u8, 5u8, 6u8];
    assert(all.len() == 6);
    assert forall|id: u8| ids.contains(id) implies all.contains(id) by {}
    vstd::set_lib::lemma_len_subset(ids, all);
}

/// The members of `ascending` are the numbers in question, each once, in order.
pub proof fn lemma_ascending(ids: Set<u8>, upto: nat)
    requires
        upto <= 255,
    ensures
        forall|i: int|
            0 <= i < ascending(ids, upto).len() ==> {
                let id = #[trigger] ascending(ids, upto)[i];
                1 <= id <= upto && ids.contains(id)
            },
        forall|id: u8|
            1 <= id <= upto && #[trigger] ids.contains(id) ==> ascending(ids, upto).contains(id),
        forall|i: int, j: int|
            0 <= i < j < ascending(ids, upto).len() ==> ascending(ids, upto)[i] < ascending(
                ids,
                upto,
            )[j],
    decreases upto,
{
    if upto > 0 {
        let before = ascending(ids, (upto - 1) as nat);
        let all = ascending(ids, upto);
        lemma_ascending(ids, (upto - 1) as nat);
        assert forall|id: u8| 1 <= id <= upto && #[trigger] ids.contains(id) implies all.contains(
            id,
        ) by {
            if id == upto {
                assert(all[all.len() - 1] == id);
            } else {
                let i = before.index_of(id);
                assert(all[i] == id);
            }
        }
    }
}

impl ProDjLinkClient {
    /// Whether the client is in order.
    pub closed spec fn wf(&self) -> bool {
        &&& self@.inv()
        &&& self.metadata_cache.wf()
        &&& self.pending_fetches.wf()
    }

    /// A client in order keeps the invariant.
    pub proof fn lemma_inv(&self)
        requires
            self.wf(),
        ensures
            self@.inv(),
    {
    }

    /// A client that has heard nothing yet.
    pub fn new() -> (client: ProDjLinkClient)
        ensures
            client.wf(),
            client@ == ClientView::initial(),
    {
        let client = ProDjLinkClient {
            devices: HashMap::new(),
            metadata_cache: MetadataCache::new(),
            pending_fetches: PendingFetches::new(),
            last_error: None,
            pending_metadata_packets: Vec::new(),
            our_device_id: 6,
            last_track_change: HashMap::new(),
            track_history: Vec::new(),
        };
        assert(client@ =~= ClientView::initial());
        client
    }

    /// The name of this source.
    pub fn name(&self) -> (name: &'static str)
        ensures
            name@ == "Pioneer CDJ"@,
    {
        "Pioneer CDJ"
    }

    /// Our own number on the network.
    pub fn our_device_id(&self) -> (id: u8)
        ensures
            id == self@.our_device_id,
    {
        self.our_device_id
    }

    /// Sets our own number on the network.
    pub fn set_our_device_id(&mut self, id: u8)
        requires
            old(self).wf(),
            1 <= id <= 7,
        ensures
            final(self).wf(),
            final(self)@ == (ClientView { our_device_id: id, ..old(self)@ }),
    {
        self.our_device_id = id;
        assert(self@ =~= (ClientView { our_device_id: id, ..old(self)@ }));
    }

    /// Notes an error, for the status message.
    pub fn set_last_error(&mut self, message: String)
        requires
            old(self).wf(),
        ensures
            final(self).wf(),
            final(self)@ == (ClientView { last_error: Some(message@), ..old(self)@ }),
    {
        self.last_error = Some(message);
        assert(self@ =~= (ClientView { last_error: Some(message@), ..old(self)@ }));
    }

    /// How many devices are known.
    pub fn peer_count(&self) -> (count: u8)
        requires
            self.wf(),
        ensures
            count == self@.devices.len(),
            count <= 6,
    {
        proof {
            assert(self@.devices.dom() =~= self.devices@.dom());
            lemma_player_count(self@.devices.dom());
        }
        self.devices.len() as u8
    }

    /// Takes in a mixer's on-air packet: byte 0x27 has a bit for each channel.
    pub fn parse_mixer_on_air(&mut self, data: &[u8])
        requires
            old(self).wf(),
        ensures
            final(self).wf(),
            final(self)@ == old(self)@.with_mixer_on_air(data@),
    {
        if data.len() < 0x28 {
            return;
        }
        let mask = data[0x27];
        let ghost before = self@.devices;
        let mut id: u8 = 1;
        proof {
            assert(before =~= before.map_entries(
                |k: u8, d: DeviceView| on_air_device(d, k, mask, 0),
            ));
        }
        while id <= 4
            invariant
                1 <= id <= 5,
                self.metadata_cache == old(self).metadata_cache,
                self.pending_fetches == old(self).pending_fetches,
                self@ == (ClientView { devices: self@.devices, ..old(self)@ }),
                self@.devices == before.map_entries(
                    |k: u8, d: DeviceView| on_air_device(d, k, mask, id - 1),
                ),
            decreases 5 - id,
        {
            let ghost start = self@.devices;
            match self.devices.remove(&id) {
                Some(device) => {
                    let mut device = device;
                    device.status.is_on_air = read_channel_on_air(mask, id);
                    self.devices.insert(id, device);
                },
                None => {},
            }
            proof {
                let after = before.map_entries(
                    |k: u8, d: DeviceView| on_air_device(d, k, mask, id as int),
                );
                assert(self@.devices.dom() =~= after.dom());
                assert forall|k: u8| after.contains_key(k) implies #[trigger] self@.devices[k]
                    == after[k] by {
                    assert(start[k] == on_air_device(before[k], k, mask, id - 1));
                    assert(after[k] == on_air_device(before[k], k, mask, id as int));
                    if k == id {
                        assert(self@.devices[k] =~= on_air_device(start[k], k, mask, id as int));
                    } else {
                        assert(self@.devices[k] == start[k]);
                    }
                }
                assert(self@.devices =~= after);
                assert(self@ =~= (ClientView { devices: self@.devices, ..old(self)@ }));
            }
            id = id + 1;
        }
        assert(self@ =~= old(self)@.with_mixer_on_air(data@));
    }

    /// Adds a track change to the history.
    fn record_change(&mut self, record: TrackChangeRecord)
        requires
            old(self).wf(),
            is_player_id(record.deck),
            record.track_id != 0,
        ensures
            final(self).wf(),
            final(self)@ == (ClientView {
                history: history_with(old(self)@.history, record@),
                ..old(self)@
            }),
    {
        if self.track_history.len() >= HISTORY_SIZE {
            let _ = self.track_history.remove(0);
        }
        self.track_history.push(record);
        proof {
            assert(record_views(self.track_history@) =~= history_with(
                old(self)@.history,
                record@,
            ));
            assert(self@ =~= (ClientView {
                history: history_with(old(self)@.history, record@),
                ..old(self)@
            }));
        }
    }

    /// Takes in a player's status packet.
    pub fn parse_cdj_status(&mut self, data: &[u8], src_ip: DeviceAddr, now: u64)
        requires
            old(self).wf(),
        ensures
            final(self).wf(),
            final(self)@ == old(self)@.with_cdj_status(data@, src_ip, now),
    {
        if data.len() < 0x7c {
            return;
        }
        let device_id = data[0x21];
        if !(1 <= device_id && device_id <= 6) || device_id == self.our_device_id {
            return;
        }
        let name = read_status_name(data);
        let status = read_status_deck(data);
        let same_track = match self.devices.get(&device_id) {
            Some(existing) => existing.status.track_id == status.track_id,
            None => false,
        };
        let track_changed = !same_track && status.track_id != 0;
        assert(track_changed == self@.track_changed(device_id, status.track_id));
        if track_changed {
            let key = status.track_key();
            let (title, artist) = match self.metadata_cache.get(&key) {
                Some(metadata) => (Some(metadata.title.clone()), Some(metadata.artist.clone())),
                None => (None, None),
            };
            let record = TrackChangeRecord {
                timestamp: now,
                deck: device_id,
                track_id: status.track_id,
                source_device: status.track_device_id,
                slot: status.track_slot,
                title,
                artist,
                bpm: status.bpm,
                is_master: status.is_master,
            };
            assert(record@ =~= self@.change_record(device_id, status, now));
            self.last_track_change.insert(device_id, now);
            let ghost middle = self@;
            assert(middle =~= (ClientView {
                last_track_change: old(self)@.last_track_change.insert(device_id, now),
                ..old(self)@
            }));
            self.record_change(record);
        }
        let ghost middle = self@;
        let device = CDJDevice { device_id, name, ip: src_ip, last_seen: now, status };
        let ghost view = device@;
        self.devices.insert(device_id, device);
        proof {
            assert(self@.devices =~= middle.devices.insert(device_id, view));
            assert(self@ =~= old(self)@.with_cdj_status(data@, src_ip, now));
        }
    }

    /// Puts a mixer packet in the queue, from which a metadata fetch may take it.
    fn queue_packet(&mut self, packet: &Datagram)
        requires
            old(self).wf(),
        ensures
            final(self).wf(),
            final(self)@ == old(self)@.with_packet(packet@),
    {
        let device_id: u8 = if packet.data.len() >= 0x22 {
            packet.data[0x21]
        } else {
            0
        };
        if self.pending_metadata_packets.len() > PACKET_QUEUE_SIZE {
            let _ = self.pending_metadata_packets.remove(0);
        }
        self.pending_metadata_packets.push(
            PendingUdpPacket {
                data: copy_bytes(packet.data.as_slice()),
                source_ip: packet.source,
                device_id,
            },
        );
        proof {
            assert(self@.packets =~= old(self)@.with_packet(packet@).packets);
            assert(self@ =~= old(self)@.with_packet(packet@));
        }
    }

    /// Takes in a packet from the status port.
    pub fn receive_status_packet(&mut self, packet: &Datagram, now: u64)
        requires
            old(self).wf(),
        ensures
            final(self).wf(),
            final(self)@ == old(self)@.with_status_packet(packet@, now),
    {
        match read_packet_type(packet.data.as_slice()) {
            Some(kind) => {
                if kind == PACKET_TYPE_CDJ_STATUS {
                    self.parse_cdj_status(packet.data.as_slice(), packet.source, now);
                } else if kind == PACKET_TYPE_MIXER {
                    self.queue_packet(packet);
                    self.parse_mixer_on_air(packet.data.as_slice());
                }
            },
            None => {},
        }
    }

    /// Takes in a packet from the announcement port.
    pub fn receive_announcement(&mut self, packet: &Datagram, now: u64)
        requires
            old(self).wf(),
        ensures
            final(self).wf(),
            final(self)@ == old(self)@.with_announcement(packet@, now),
    {
        let data = packet.data.as_slice();
        match read_keep_alive_id(data) {
            Some(id) => {
                if id == self.our_device_id {
                    return;
                }
                let name = read_keep_alive_name(data);
                let device = match self.devices.remove(&id) {
                    Some(known) => CDJDevice {
                        device_id: known.device_id,
                        name: if known.name.as_str().is_empty() {
                            name
                        } else {
                            known.name
                        },
                        ip: known.ip,
                        last_seen: now,
                        status: known.status,
                    },
                    None => CDJDevice {
                        device_id: id,
                        name,
                        ip: packet.source,
                        last_seen: now,
                        status: DeckStatus::default(),
                    },
                };
                let ghost view = device@;
                assert(view =~= old(self)@.announced_device(packet@, now));
                self.devices.insert(id, device);
                proof {
                    assert(self@.devices =~= old(self)@.devices.insert(id, view));
                    assert(self@ =~= old(self)@.with_announcement(packet@, now));
                }
            },
            None => {},
        }
    }

    /// Forgets the devices that have been silent for too long.
    pub fn prune(&mut self, now: u64)
        requires
            old(self).wf(),
        ensures
            final(self).wf(),
            final(self)@ == old(self)@.pruned(now),
    {
        let ghost before = self@.devices;
        let mut id: u8 = 1;
        proof {
            assert(before =~= before.filter_keys(
                |k: u8| k >= id || elapsed(before[k].last_seen, now) < DEVICE_TIMEOUT,
            ));
        }
        while id <= 6
            invariant
                1 <= id <= 7,
                old(self)@.inv(),
                before == old(self)@.devices,
                self.metadata_cache == old(self).metadata_cache,
                self.pending_fetches == old(self).pending_fetches,
                self@ == (ClientView { devices: self@.devices, ..old(self)@ }),
                self@.devices == before.filter_keys(
                    |k: u8| k >= id || elapsed(before[k].last_seen, now) < DEVICE_TIMEOUT,
                ),
            decreases 7 - id,
        {
            let stale = match self.devices.get(&id) {
                Some(device) => time_since(device.last_seen, now) >= DEVICE_TIMEOUT,
                None => false,
            };
            let ghost start = self@.devices;
            assert(start.contains_key(id) <==> before.contains_key(id));
            assert(start.contains_key(id) ==> start[id] == before[id] && start[id]
                == self.devices@[id]@);
            assert(stale == (start.contains_key(id) && elapsed(before[id].last_seen, now)
                >= DEVICE_TIMEOUT));
            if stale {
                let _ = self.devices.remove(&id);
            }
            proof {
                assert(self@.devices =~= if stale {
                    start.remove(id)
                } else {
                    start
                });
                assert(self@.devices =~= before.filter_keys(
                    |k: u8|
                        k >= id + 1 || elapsed(before[k].last_seen, now) < DEVICE_TIMEOUT,
                ));
                assert(self@ =~= (ClientView { devices: self@.devices, ..old(self)@ }));
            }
            id = id + 1;
        }
        proof {
            assert(self@.devices =~= old(self)@.pruned(now).devices);
            assert(self@ =~= old(self)@.pruned(now));
        }
    }

    /// Decides whether a fetch about `key` starts now on behalf of deck
    /// `source_device_id`. If so, the fetch counts as running until it is finished.
    pub fn start_metadata_fetch(
        &mut self,
        device_ip: DeviceAddr,
        key: MetadataKey,
        source_device_id: u8,
        now: u64,
    ) -> (request: Option<FetchRequest>)
        requires
            old(self).wf(),
        ensures
            final(self).wf(),
            final(self)@ == old(self)@.with_fetch(key, source_device_id, now),
            request == (if old(self)@.may_fetch(key, source_device_id, now) {
                Some(FetchRequest { device_ip, key })
            } else {
                None
            }),
    {
        if self.pending_fetches.contains(&key) || self.metadata_cache.contains_key(&key) {
            return None;
        }
        match self.last_track_change.get(&source_device_id) {
            Some(change) => {
                if time_since(*change, now) < DEBOUNCE_DELAY {
                    return None;
                }
            },
            None => {},
        }
        self.pending_fetches.insert(key);
        assert(self@ =~= old(self)@.with_fetch(key, source_device_id, now));
        Some(FetchRequest { device_ip, key })
    }

    /// Takes in the result of a fetch, which no longer runs. Metadata goes into the cache.
    pub fn finish_metadata_fetch(&mut self, key: MetadataKey, metadata: Option<TrackMetadata>)
        requires
            old(self).wf(),
        ensures
            final(self).wf(),
            final(self)@ == (ClientView {
                pending: old(self)@.pending.remove(key),
                cache: final(self)@.cache,
                ..old(self)@
            }),
            match metadata {
                Some(m) => stored(old(self)@.cache, final(self)@.cache, key, m@),
                None => final(self)@.cache == old(self)@.cache,
            },
    {
        self.pending_fetches.remove(&key);
        match metadata {
            Some(m) => {
                self.metadata_cache.insert(key, m);
                proof {
                    self.metadata_cache.lemma_bounded();
                }
            },
            None => {},
        }
        assert(self@ =~= (ClientView {
            pending: old(self)@.pending.remove(key),
            cache: self@.cache,
            ..old(self)@
        }));
    }

    /// Takes all waiting mixer packets, and gives those that may answer a question to
    /// player `track_device_id` at `device_ip`.
    pub fn take_menu_packets(&mut self, track_device_id: u8, device_ip: DeviceAddr) -> (packets:
        Vec<Vec<u8>>)
        requires
            old(self).wf(),
        ensures
            final(self).wf(),
            final(self)@ == (ClientView { packets: Seq::empty(), ..old(self)@ }),
            packet_views(packets@) == packets_for(
                old(self)@.packets,
                track_device_id,
                device_ip,
            ),
    {
        let ghost queue = self@.packets;
        let mut packets: Vec<Vec<u8>> = Vec::new();
        let mut i: usize = 0;
        assert(packet_views(packets@) =~= packets_for(queue.take(0), track_device_id, device_ip));
        while i < self.pending_metadata_packets.len()
            invariant
                i <= self.pending_metadata_packets@.len(),
                queue == queue_views(self.pending_metadata_packets@),
                packet_views(packets@) == packets_for(
                    queue.take(i as int),
                    track_device_id,
                    device_ip,
                ),
            decreases self.pending_metadata_packets@.len() - i,
        {
            let packet = &self.pending_metadata_packets[i];
            let ghost before = packet_views(packets@);
            if packet.device_id == track_device_id || packet.source_ip == device_ip {
                packets.push(copy_bytes(packet.data.as_slice()));
                assert(packet_views(packets@) =~= before.push(queue[i as int].data));
            }
            assert(queue.take(i + 1).drop_last() =~= queue.take(i as int));
            i = i + 1;
        }
        assert(queue.take(i as int) =~= queue);
        self.pending_metadata_packets.clear();
        proof {
            assert(self@.packets =~= Seq::empty());
            assert(self@ =~= (ClientView { packets: Seq::empty(), ..old(self)@ }));
        }
        packets
    }

    /// The numbers of the devices, in ascending order.
    fn list_ids(&self) -> (ids: Vec<u8>)
        ensures
            ids@ == self@.device_ids(),
    {
        let mut ids: Vec<u8> = Vec::new();
        let mut id: u8 = 1;
        while id <= 6
            invariant
                1 <= id <= 7,
                ids@ == ascending(self@.devices.dom(), (id - 1) as nat),
            decreases 7 - id,
        {
            if self.devices.contains_key(&id) {
                ids.push(id);
            }
            id = id + 1;
        }
        ids
    }

    /// Whether any device is known.
    pub fn is_available(&self) -> (yes: bool)
        requires
            self.wf(),
        ensures
            yes == (self@.devices.len() > 0),
            yes == exists|id: u8| self@.devices.contains_key(id),
    {
        let yes = self.peer_count() > 0;
        proof {
            let ids = self@.devices.dom();
            lemma_player_count(ids);
            if yes {
                assert(self@.devices.contains_key(ids.choose()));
            } else {
                assert(ids =~= Set::empty());
            }
        }
        yes
    }

    /// Whether any device is known.
    pub fn has_devices(&self) -> (yes: bool)
        requires
            self.wf(),
        ensures
            yes == (self@.devices.len() > 0),
            yes == exists|id: u8| self@.devices.contains_key(id),
    {
        self.is_available()
    }

    /// The number, name and master flag of each device.
    pub fn get_devices(&self) -> (list: Vec<(u8, String, bool)>)
        requires
            self.wf(),
        ensures
            list@.len() == self@.device_ids().len(),
            forall|i: int|
                0 <= i < list@.len() ==> {
                    let device = self@.devices[self@.device_ids()[i]];
                    &&& (#[trigger] list@[i]).0 == device.device_id
                    &&& list@[i].1@ == device.name
                    &&& list@[i].2 == device.status.is_master
                },
    {
        let ids = self.list_ids();
        let mut list: Vec<(u8, String, bool)> = Vec::new();
        let mut i: usize = 0;
        while i < ids.len()
            invariant
                self.wf(),
                ids@ == self@.device_ids(),
                i <= ids@.len(),
                list@.len() == i,
                forall|k: int|
                    0 <= k < i ==> {
                        let device = self@.devices[ids@[k]];
                        &&& (#[trigger] list@[k]).0 == device.device_id
                        &&& list@[k].1@ == device.name
                        &&& list@[k].2 == device.status.is_master
                    },
            decreases ids@.len() - i,
        {
            proof {
                lemma_ascending(self@.devices.dom(), 6);
                assert(self@.devices.dom().contains(ids@[i as int]));
            }
            match self.devices.get(&ids[i]) {
                Some(device) => {
                    list.push((device.device_id, device.name.clone(), device.status.is_master));
                },
                None => {},
            }
            i = i + 1;
        }
        list
    }

    /// The lowest-numbered deck that is master and has a track.
    fn find_master(&self) -> (id: Option<u8>)
        ensures
            id == self@.master_from(1),
            id matches Some(i) ==> self.devices@.contains_key(i) && self@.is_master_deck(i),
    {
        let mut id: u8 = 1;
        while id <= 6
            invariant
                1 <= id <= 7,
                self@.master_from(id as int) == self@.master_from(1),
            decreases 7 - id,
        {
            match self.devices.get(&id) {
                Some(device) => {
                    if device.status.is_master && device.status.track_loaded {
                        return Some(id);
                    }
                },
                None => {},
            }
            id = id + 1;
        }
        None
    }

    /// The fetch about the track on `device`.
    fn request_for(&self, device: &CDJDevice) -> (request: FetchRequest)
        requires
            exists|id: u8|
                self@.devices.contains_key(id) && #[trigger] self@.devices[id] == device@,
        ensures
            forall|id: u8|
                #[trigger] self@.devices[id] == device@ && self@.devices.contains_key(id)
                    ==> request == self@.deck_request(id),
    {
        let device_ip = match self.devices.get(&device.status.track_device_id) {
            Some(source) => source.ip,
            None => device.ip,
        };
        FetchRequest { device_ip, key: device.status.track_key() }
    }

    /// The track on the master deck, if one is master and has a track. Where several are,
    /// the lowest-numbered counts. If the metadata is not at hand, this may ask for a fetch.
    pub fn current_track(&mut self, now: u64) -> (result: (
        Option<TrackInfo>,
        Option<FetchRequest>,
    ))
        requires
            old(self).wf(),
        ensures
            final(self).wf(),
            match old(self)@.master_from(1) {
                Some(id) => {
                    let request = old(self)@.deck_request(id);
                    &&& result.0 matches Some(track) && track@ == old(self)@.track_on(id)
                    &&& final(self)@ == old(self)@.with_fetch(request.key, id, now)
                    &&& result.1 == (if old(self)@.may_fetch(request.key, id, now) {
                        Some(request)
                    } else {
                        None
                    })
                },
                None => result.0 is None && result.1 is None && final(self)@ == old(self)@,
            },
    {
        let id = match self.find_master() {
            Some(id) => id,
            None => {
                return (None, None);
            },
        };
        let (info, request, ask) = match self.devices.get(&id) {
            Some(master) => {
                let request = self.request_for(master);
                let metadata = self.metadata_cache.get(&request.key);
                let ask = metadata.is_none() && !self.pending_fetches.contains(&request.key)
                    && master.status.track_id != 0;
                let info = match metadata {
                    Some(m) => TrackInfo {
                        title: m.title.clone(),
                        artist: m.artist.clone(),
                        album: copy_text(&m.album),
                        duration: m.duration,
                        position: None,
                        is_playing: master.status.is_playing,
                        bpm: master.status.bpm,
                        source: "Pioneer CDJ".to_owned(),
                        deck: Some(id),
                        artwork: None,
                    },
                    None => TrackInfo {
                        title: "Track ".to_owned().concat(
                            decimal_text(master.status.track_id).as_str(),
                        ),
                        artist: master.name.clone(),
                        album: None,
                        duration: None,
                        position: None,
                        is_playing: master.status.is_playing,
                        bpm: master.status.bpm,
                        source: "Pioneer CDJ".to_owned(),
                        deck: Some(id),
                        artwork: None,
                    },
                };
                (info, request, ask)
            },
            None => {
                return (None, None);
            },
        };
        proof {
            assert(info@ =~= self@.track_on(id));
        }
        if ask {
            let started = self.start_metadata_fetch(request.device_ip, request.key, id, now);
            (Some(info), started)
        } else {
            (Some(info), None)
        }
    }

    /// What is shown of our own place on the network.
    fn own_info(&self) -> (info: CdjDeviceInfo)
        ensures
            info@ == self@.own_info(),
    {
        let info = CdjDeviceInfo {
            device_id: self.our_device_id,
            name: "REACT (ID ".to_owned().concat(
                decimal_text(self.our_device_id as u32).as_str(),
            ).concat(")"),
            ip: DeviceAddr::V4(0x7f00_0001),
            track_loaded: false,
            is_playing: false,
            is_looping: false,
            is_master: false,
            is_on_air: false,
            bpm: None,
            track_title: None,
            track_artist: None,
        };
        assert(info@ =~= self@.own_info());
        info
    }

    /// What is shown of a device.
    fn info_of(&self, device: &CDJDevice) -> (info: CdjDeviceInfo)
        requires
            self.wf(),
        ensures
            forall|id: u8|
                #[trigger] self@.devices[id] == device@ ==> info@ == self@.device_info(id),
    {
        let key = device.status.track_key();
        let (track_title, track_artist) = match self.metadata_cache.get(&key) {
            Some(m) => (Some(m.title.clone()), Some(m.artist.clone())),
            None => (None, None),
        };
        CdjDeviceInfo {
            device_id: device.device_id,
            name: device.name.clone(),
            ip: device.ip,
            track_loaded: device.status.track_loaded,
            is_playing: device.status.is_playing,
            is_looping: device.status.is_looping,
            is_master: device.status.is_master,
            is_on_air: device.status.is_on_air,
            bpm: device.status.bpm,
            track_title,
            track_artist,
        }
    }

    /// What is shown of everybody on the network.
    fn list_infos(&self) -> (infos: Vec<CdjDeviceInfo>)
        requires
            self.wf(),
        ensures
            info_views(infos@) == self@.infos(),
    {
        let mut infos: Vec<CdjDeviceInfo> = Vec::new();
        let mut id: u8 = 1;
        let ghost all = self@.devices.dom().insert(self@.our_device_id);
        while id <= 7
            invariant
                1 <= id <= 8,
                self.wf(),
                all == self@.devices.dom().insert(self@.our_device_id),
                infos@.len() == ascending(all, (id - 1) as nat).len(),
                forall|i: int|
                    0 <= i < infos@.len() ==> {
                        let shown = ascending(all, (id - 1) as nat)[i];
                        (#[trigger] infos@[i])@ == if shown == self@.our_device_id {
                            self@.own_info()
                        } else {
                            self@.device_info(shown)
                        }
                    },
            decreases 8 - id,
        {
            if id == self.our_device_id {
                infos.push(self.own_info());
            } else {
                match self.devices.get(&id) {
                    Some(device) => {
                        let info = self.info_of(device);
                        assert(self@.devices[id] == device@);
                        infos.push(info);
                    },
                    None => {},
                }
            }
            id = id + 1;
        }
        assert(info_views(infos@) =~= self@.infos());
        infos
    }

    /// What is shown of everybody on the network, us included, by number; and the fetches
    /// to carry out for the loaded tracks whose metadata is not at hand.
    pub fn get_device_info(&mut self, now: u64) -> (result: (
        Vec<CdjDeviceInfo>,
        Vec<FetchRequest>,
    ))
        requires
            old(self).wf(),
        ensures
            final(self).wf(),
            info_views(result.0@) == old(self)@.infos(),
            final(self)@ == old(self)@.with_fetches(old(self)@.device_ids(), now),
            result.1@ == old(self)@.requests(old(self)@.device_ids(), now),
    {
        let infos = self.list_infos();
        let ids = self.list_ids();
        let ghost start = self@;
        let mut requests: Vec<FetchRequest> = Vec::new();
        let mut i: usize = 0;
        assert(ids@.take(0) =~= Seq::empty());
        while i < ids.len()
            invariant
                self.wf(),
                i <= ids@.len(),
                ids@ == start.device_ids(),
                self@ == start.with_fetches(ids@.take(i as int), now),
                self@ == (ClientView { pending: self@.pending, ..start }),
                requests@ == start.requests(ids@.take(i as int), now),
            decreases ids@.len() - i,
        {
            let id = ids[i];
            proof {
                lemma_ascending(start.devices.dom(), 6);
                assert(start.devices.dom().contains(ids@[i as int]));
                assert(ids@.take(i + 1).drop_last() =~= ids@.take(i as int));
            }
            match self.devices.get(&id) {
                Some(device) => {
                    if device.status.track_loaded && device.status.track_id != 0 {
                        assert(self@.devices[id] == device@);
                        let request = self.request_for(device);
                        assert(request == start.deck_request(id));
                        match self.start_metadata_fetch(
                            request.device_ip,
                            request.key,
                            id,
                            now,
                        ) {
                            Some(started) => {
                                requests.push(started);
                            },
                            None => {},
                        }
                    }
                },
                None => {},
            }
            i = i + 1;
        }
        assert(ids@.take(i as int) =~= ids@);
        (infos, requests)
    }

    /// As [`ProDjLinkClient::get_device_info`].
    pub fn cdj_devices(&mut self, now: u64) -> (result: (Vec<CdjDeviceInfo>, Vec<FetchRequest>))
        requires
            old(self).wf(),
        ensures
            final(self).wf(),
            info_views(result.0@) == old(self)@.infos(),
            final(self)@ == old(self)@.with_fetches(old(self)@.device_ids(), now),
            result.1@ == old(self)@.requests(old(self)@.device_ids(), now),
    {
        self.get_device_info(now)
    }

    /// A message on the state of things: the last error, or the devices by number.
    pub fn get_status_message(&self) -> (message: String)
        requires
            self.wf(),
        ensures
            message@ == self@.status_message(),
    {
        match &self.last_error {
            Some(error) => {
                return "CDJ: ".to_owned().concat(error.as_str());
            },
            None => {},
        }
        let count = self.peer_count();
        if count == 0 {
            return "CDJ: Scanning network...".to_owned();
        }
        let ids = self.list_ids();
        let mut labels: Vec<String> = Vec::new();
        let mut i: usize = 0;
        while i < ids.len()
            invariant
                self.wf(),
                ids@ == self@.device_ids(),
                i <= ids@.len(),
                labels@.len() == i,
                forall|k: int|
                    0 <= k < i ==> (#[trigger] labels@[k])@ == device_label(
                        self@.devices[ids@[k]],
                    ),
            decreases ids@.len() - i,
        {
            proof {
                lemma_ascending(self@.devices.dom(), 6);
                assert(self@.devices.dom().contains(ids@[i as int]));
            }
            match self.devices.get(&ids[i]) {
                Some(device) => {
                    labels.push(label_of(device));
                },
                None => {},
            }
            i = i + 1;
        }
        assert(Seq::new(labels@.len(), |k: int| labels@[k]@) =~= Seq::new(
            self@.device_ids().len(),
            |k: int| device_label(self@.devices[self@.device_ids()[k]]),
        ));
        "CDJ: ".to_owned().concat(decimal_text(count as u32).as_str()).concat(" (").concat(
            join_text(&labels, ", ").as_str(),
        ).concat(")")
    }

    /// The track changes since this was last called, oldest first; they are forgotten.
    pub fn drain_track_history(&mut self) -> (records: Vec<TrackChangeRecord>)
        requires
            old(self).wf(),
        ensures
            final(self).wf(),
            final(self)@ == (ClientView { history: Seq::empty(), ..old(self)@ }),
            record_views(records@) == old(self)@.history,
    {
        let mut records: Vec<TrackChangeRecord> = Vec::new();
        std::mem::swap(&mut records, &mut self.track_history);
        proof {
            assert(self@.history =~= Seq::empty());
            assert(self@ =~= (ClientView { history: Seq::empty(), ..old(self)@ }));
        }
        records
    }

    /// The track changes so far, oldest first.
    pub fn get_track_history(&self) -> (records: Vec<TrackChangeRecord>)
        ensures
            record_views(records@) == self@.history,
    {
        let mut records: Vec<TrackChangeRecord> = Vec::new();
        let mut i: usize = 0;
        while i < self.track_history.len()
            invariant
                i <= self.track_history@.len(),
                records@.len() == i,
                forall|k: int|
                    0 <= k < i ==> (#[trigger] records@[k])@ == self.track_history@[k]@,
            decreases self.track_history@.len() - i,
        {
            records.push(self.track_history[i].clone());
            i = i + 1;
        }
        assert(record_views(records@) =~= self@.history);
        records
    }

    /// Fills in the metadata of a track in the records of it that have no title.
    pub fn update_history_metadata(&mut self, track_id: u32, title: &str, artist: &str)
        requires
            old(self).wf(),
        ensures
            final(self).wf(),
            final(self)@ == old(self)@.with_history_metadata(track_id, title@, artist@),
    {
        let ghost before = self@.history;
        let ghost after = self@.with_history_metadata(track_id, title@, artist@).history;
        let mut i: usize = 0;
        while i < self.track_history.len()
            invariant
                i <= self.track_history@.len(),
                self.metadata_cache == old(self).metadata_cache,
                self.pending_fetches == old(self).pending_fetches,
                self@ == (ClientView { history: self@.history, ..old(self)@ }),
                self@.history.len() == before.len() == after.len(),
                before == old(self)@.history,
                after == old(self)@.with_history_metadata(track_id, title@, artist@).history,
                forall|k: int| 0 <= k < i ==> #[trigger] self@.history[k] == after[k],
                forall|k: int|
                    i <= k < before.len() ==> #[trigger] self@.history[k] == before[k],
            decreases self.track_history@.len() - i,
        {
            let ghost start = self@.history;
            assert(start[i as int] == before[i as int]);
            let record = &self.track_history[i];
            if record.track_id == track_id && record.title.is_none() {
                let filled = TrackChangeRecord {
                    timestamp: record.timestamp,
                    deck: record.deck,
                    track_id: record.track_id,
                    source_device: record.source_device,
                    slot: record.slot,
                    title: Some(title.to_owned()),
                    artist: Some(artist.to_owned()),
                    bpm: record.bpm,
                    is_master: record.is_master,
                };
                assert(filled@ =~= after[i as int]);
                self.track_history.set(i, filled);
                assert(self@.history =~= start.update(i as int, after[i as int]));
            }
            assert(self@ =~= (ClientView { history: self@.history, ..old(self)@ }));
            i = i + 1;
        }
        proof {
            assert(self@.history =~= after);
            assert(self@ =~= old(self)@.with_history_metadata(track_id, title@, artist@));
        }
    }
}

/// A device in the status message.
fn label_of(device: &CDJDevice) -> (label: String)
    ensures
        label@ == device_label(device@),
{
    let status = device.status;
    let mut label = device.name.clone();
    if status.is_master || status.is_playing || status.is_looping {
        proof {
            reveal_strlit("");
        }
        label.append(" ");
        let ghost head = label@;
        if status.is_master {
            label.append("[M]");
        }
        if status.is_playing {
            label.append("[play]");
        }
        if status.is_looping {
            label.append("[loop]");
        }
        assert(label@ =~= head + deck_flags(status));
    }
    label
}

impl Default for ProDjLinkClient {
    fn default() -> (client: Self)
        ensures
            client.wf(),
            client@ == ClientView::initial(),
    {
        ProDjLinkClient::new()
    }
}

} // verus!
