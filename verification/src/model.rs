//! The values that the client keeps and reports, and their mathematical views.
//!
//! Points in time are nanoseconds on one monotonic clock. Tempo is in hundredths of a
//! beat per minute, as the players send it. Lengths of time in track data are in
//! milliseconds.

use vstd::prelude::*;

verus! {

/// The network address of a device.
#[derive(Clone, Copy, Debug, PartialEq, Eq, Structural)]
pub enum DeviceAddr {
    /// An IPv4 address, as the number that its four octets spell most significant first.
    V4(u32),
    /// An IPv6 address, as the number that its octets spell most significant first.
    V6(u128),
}

/// Identifies a track: the player that holds the medium, the slot, and the rekordbox id.
#[derive(Clone, Copy, Debug, PartialEq, Eq, Structural)]
pub struct MetadataKey {
    pub device_id: u8,
    pub slot: u8,
    pub track_id: u32,
}

/// What a player last said about its deck.
#[derive(Clone, Copy, Debug, PartialEq, Eq, Structural)]
pub struct DeckStatus {
    pub track_loaded: bool,
    pub is_playing: bool,
    pub is_looping: bool,
    pub is_master: bool,
    pub is_on_air: bool,
    /// Hundredths of a beat per minute.
    pub bpm: Option<u16>,
    pub track_device_id: u8,
    pub track_slot: u8,
    pub track_id: u32,
    pub beat_in_measure: u8,
}

impl DeckStatus {
    /// The status of a deck that has not reported yet.
    pub open spec fn unknown() -> DeckStatus {
        DeckStatus {
            track_loaded: false,
            is_playing: false,
            is_looping: false,
            is_master: false,
            is_on_air: false,
            bpm: None,
            track_device_id: 0,
            track_slot: 0,
            track_id: 0,
            beat_in_measure: 0,
        }
    }

    /// The key of the loaded track's metadata.
    pub open spec fn spec_track_key(self) -> MetadataKey {
        MetadataKey {
            device_id: self.track_device_id,
            slot: self.track_slot,
            track_id: self.track_id,
        }
    }

    /// The key of the loaded track's metadata.
    pub fn track_key(&self) -> (key: MetadataKey)
        ensures
            key == self.spec_track_key(),
    {
        MetadataKey {
            device_id: self.track_device_id,
            slot: self.track_slot,
            track_id: self.track_id,
        }
    }
}

impl Default for DeckStatus {
    fn default() -> (status: Self)
        ensures
            status == DeckStatus::unknown(),
    {
        DeckStatus {
            track_loaded: false,
            is_playing: false,
            is_looping: false,
            is_master: false,
            is_on_air: false,
            bpm: None,
            track_device_id: 0,
            track_slot: 0,
            track_id: 0,
            beat_in_measure: 0,
        }
    }
}

/// The text of an optional string.
pub open spec fn text_of(text: Option<String>) -> Option<Seq<char>> {
    match text {
        Some(t) => Some(t@),
        None => None,
    }
}

/// A copy of an optional string.
pub fn copy_text(text: &Option<String>) -> (copy: Option<String>)
    ensures
        text_of(copy) == text_of(*text),
{
    match text {
        Some(t) => Some(t.clone()),
        None => None,
    }
}

/// Metadata of one track, as a player's database server gave it.
#[derive(Debug)]
pub struct TrackMetadata {
    pub title: String,
    pub artist: String,
    pub album: Option<String>,
    /// Milliseconds.
    pub duration: Option<u64>,
    /// When it was fetched.
    pub fetched_at: u64,
}

/// View of [`TrackMetadata`].
#[verifier::ext_equal]
pub struct MetadataView {
    pub title: Seq<char>,
    pub artist: Seq<char>,
    pub album: Option<Seq<char>>,
    pub duration: Option<u64>,
    pub fetched_at: u64,
}

impl View for TrackMetadata {
    type V = MetadataView;

    open spec fn view(&self) -> MetadataView {
        MetadataView {
            title: self.title@,
            artist: self.artist@,
            album: text_of(self.album),
            duration: self.duration,
            fetched_at: self.fetched_at,
        }
    }
}

impl Clone for TrackMetadata {
    fn clone(&self) -> (copy: Self)
        ensures
            copy@ == self@,
    {
        TrackMetadata {
            title: self.title.clone(),
            artist: self.artist.clone(),
            album: copy_text(&self.album),
            duration: self.duration,
            fetched_at: self.fetched_at,
        }
    }
}

/// The view of optional metadata.
pub open spec fn metadata_view(metadata: Option<TrackMetadata>) -> Option<MetadataView> {
    match metadata {
        Some(m) => Some(m@),
        None => None,
    }
}

/// A player on the network.
#[derive(Debug)]
pub struct CDJDevice {
    pub device_id: u8,
    pub name: String,
    pub ip: DeviceAddr,
    pub last_seen: u64,
    pub status: DeckStatus,
}

/// View of [`CDJDevice`].
#[verifier::ext_equal]
pub struct DeviceView {
    pub device_id: u8,
    pub name: Seq<char>,
    pub ip: DeviceAddr,
    pub last_seen: u64,
    pub status: DeckStatus,
}

impl View for CDJDevice {
    type V = DeviceView;

    open spec fn view(&self) -> DeviceView {
        DeviceView {
            device_id: self.device_id,
            name: self.name@,
            ip: self.ip,
            last_seen: self.last_seen,
            status: self.status,
        }
    }
}

/// What is shown of a device: its deck and, if known, its track.
#[derive(Debug)]
pub struct CdjDeviceInfo {
    pub device_id: u8,
    pub name: String,
    pub ip: DeviceAddr,
    pub track_loaded: bool,
    pub is_playing: bool,
    pub is_looping: bool,
    pub is_master: bool,
    pub is_on_air: bool,
    /// Hundredths of a beat per minute.
    pub bpm: Option<u16>,
    pub track_title: Option<String>,
    pub track_artist: Option<String>,
}

/// View of [`CdjDeviceInfo`].
#[verifier::ext_equal]
pub struct InfoView {
    pub device_id: u8,
    pub name: Seq<char>,
    pub ip: DeviceAddr,
    pub track_loaded: bool,
    pub is_playing: bool,
    pub is_looping: bool,
    pub is_master: bool,
    pub is_on_air: bool,
    pub bpm: Option<u16>,
    pub track_title: Option<Seq<char>>,
    pub track_artist: Option<Seq<char>>,
}

impl View for CdjDeviceInfo {
    type V = InfoView;

    open spec fn view(&self) -> InfoView {
        InfoView {
            device_id: self.device_id,
            name: self.name@,
            ip: self.ip,
            track_loaded: self.track_loaded,
            is_playing: self.is_playing,
            is_looping: self.is_looping,
            is_master: self.is_master,
            is_on_air: self.is_on_air,
            bpm: self.bpm,
            track_title: text_of(self.track_title),
            track_artist: text_of(self.track_artist),
        }
    }
}

impl Clone for CdjDeviceInfo {
    fn clone(&self) -> (copy: Self)
        ensures
            copy@ == self@,
    {
        CdjDeviceInfo {
            device_id: self.device_id,
            name: self.name.clone(),
            ip: self.ip,
            track_loaded: self.track_loaded,
            is_playing: self.is_playing,
            is_looping: self.is_looping,
            is_master: self.is_master,
            is_on_air: self.is_on_air,
            bpm: self.bpm,
            track_title: copy_text(&self.track_title),
            track_artist: copy_text(&self.track_artist),
        }
    }
}

/// The track on the master deck.
#[derive(Debug)]
pub struct TrackInfo {
    pub title: String,
    pub artist: String,
    pub album: Option<String>,
    /// Milliseconds.
    pub duration: Option<u64>,
    /// Milliseconds.
    pub position: Option<u64>,
    pub is_playing: bool,
    /// Hundredths of a beat per minute.
    pub bpm: Option<u16>,
    pub source: String,
    pub deck: Option<u8>,
    pub artwork: Option<Vec<u8>>,
}

/// View of [`TrackInfo`].
#[verifier::ext_equal]
pub struct TrackView {
    pub title: Seq<char>,
    pub artist: Seq<char>,
    pub album: Option<Seq<char>>,
    pub duration: Option<u64>,
    pub position: Option<u64>,
    pub is_playing: bool,
    pub bpm: Option<u16>,
    pub source: Seq<char>,
    pub deck: Option<u8>,
    pub artwork: Option<Seq<u8>>,
}

/// The bytes of an optional picture.
pub open spec fn bytes_of(data: Option<Vec<u8>>) -> Option<Seq<u8>> {
    match data {
        Some(d) => Some(d@),
        None => None,
    }
}

impl View for TrackInfo {
    type V = TrackView;

    open spec fn view(&self) -> TrackView {
        TrackView {
            title: self.title@,
            artist: self.artist@,
            album: text_of(self.album),
            duration: self.duration,
            position: self.position,
            is_playing: self.is_playing,
            bpm: self.bpm,
            source: self.source@,
            deck: self.deck,
            artwork: bytes_of(self.artwork),
        }
    }
}

impl Clone for TrackInfo {
    fn clone(&self) -> (copy: Self)
        ensures
            copy@ == self@,
    {
        TrackInfo {
            title: self.title.clone(),
            artist: self.artist.clone(),
            album: copy_text(&self.album),
            duration: self.duration,
            position: self.position,
            is_playing: self.is_playing,
            bpm: self.bpm,
            source: self.source.clone(),
            deck: self.deck,
            artwork: match &self.artwork {
                Some(data) => Some(crate::bytes::copy_bytes(data.as_slice())),
                None => None,
            },
        }
    }
}

impl Default for TrackInfo {
    fn default() -> (info: Self)
        ensures
            info@ == (TrackView {
                title: Seq::empty(),
                artist: Seq::empty(),
                album: None,
                duration: None,
                position: None,
                is_playing: false,
                bpm: None,
                source: Seq::empty(),
                deck: None,
                artwork: None,
            }),
    {
        TrackInfo {
            title: String::new(),
            artist: String::new(),
            album: None,
            duration: None,
            position: None,
            is_playing: false,
            bpm: None,
            source: String::new(),
            deck: None,
            artwork: None,
        }
    }
}

/// A track change seen on a deck.
#[derive(Debug)]
pub struct TrackChangeRecord {
    /// When the change was seen.
    pub timestamp: u64,
    /// Deck number (1-6).
    pub deck: u8,
    /// Track id in the rekordbox database.
    pub track_id: u32,
    /// The player that holds the medium.
    pub source_device: u8,
    /// Slot (1=CD, 2=SD, 3=USB).
    pub slot: u8,
    pub title: Option<String>,
    pub artist: Option<String>,
    /// Hundredths of a beat per minute.
    pub bpm: Option<u16>,
    pub is_master: bool,
}

/// View of [`TrackChangeRecord`].
#[verifier::ext_equal]
pub struct RecordView {
    pub timestamp: u64,
    pub deck: u8,
    pub track_id: u32,
    pub source_device: u8,
    pub slot: u8,
    pub title: Option<Seq<char>>,
    pub artist: Option<Seq<char>>,
    pub bpm: Option<u16>,
    pub is_master: bool,
}

impl View for TrackChangeRecord {
    type V = RecordView;

    open spec fn view(&self) -> RecordView {
        RecordView {
            timestamp: self.timestamp,
            deck: self.deck,
            track_id: self.track_id,
            source_device: self.source_device,
            slot: self.slot,
            title: text_of(self.title),
            artist: text_of(self.artist),
            bpm: self.bpm,
            is_master: self.is_master,
        }
    }
}

impl Clone for TrackChangeRecord {
    fn clone(&self) -> (copy: Self)
        ensures
            copy@ == self@,
    {
        TrackChangeRecord {
            timestamp: self.timestamp,
            deck: self.deck,
            track_id: self.track_id,
            source_device: self.source_device,
            slot: self.slot,
            title: copy_text(&self.title),
            artist: copy_text(&self.artist),
            bpm: self.bpm,
            is_master: self.is_master,
        }
    }
}

/// The views of a list of records.
pub open spec fn record_views(records: Seq<TrackChangeRecord>) -> Seq<RecordView> {
    Seq::new(records.len(), |i: int| records[i]@)
}

/// The views of a list of device infos.
pub open spec fn info_views(infos: Seq<CdjDeviceInfo>) -> Seq<InfoView> {
    Seq::new(infos.len(), |i: int| infos[i]@)
}

/// A packet as it came in, with where it came from.
#[derive(Debug)]
pub struct Datagram {
    pub data: Vec<u8>,
    pub source: DeviceAddr,
}

/// View of [`Datagram`].
#[verifier::ext_equal]
pub struct DatagramView {
    pub data: Seq<u8>,
    pub source: DeviceAddr,
}

impl View for Datagram {
    type V = DatagramView;

    open spec fn view(&self) -> DatagramView {
        DatagramView { data: self.data@, source: self.source }
    }
}

/// The view of an optional packet.
pub open spec fn datagram_view(packet: Option<Datagram>) -> Option<DatagramView> {
    match packet {
        Some(p) => Some(p@),
        None => None,
    }
}

/// A metadata fetch to carry out: which player to ask, and about which track.
#[derive(Clone, Copy, Debug, PartialEq, Eq, Structural)]
pub struct FetchRequest {
    pub device_ip: DeviceAddr,
    pub key: MetadataKey,
}

} // verus!
