//! One conversation with a player's database server, as a state machine.
//!
//! [`MetadataFetch::step`] takes what the last action led to and names the next action:
//! write these bytes, read a reply, wait, or finish with what was found.

use crate::bytes::append;
use crate::client::ProDjLinkClient;
use crate::dbserver::{
    build_greeting, build_metadata_request, build_render_request, build_setup_request, menu_reply,
    message_kind, metadata_in, metadata_request, number_field, packet_views, parse_menu_packets,
    parse_rendered_rows, read_menu_reply, render_request, setup_request, strings_from,
    strings_in_packets, LengthUnit,
};
use crate::model::{metadata_view, FetchRequest, MetadataView, TrackMetadata};
use crate::state::{packets_for, ClientView};
use vstd::prelude::*;

verus! {

/// Rows are collected for this long at most, in nanoseconds.
pub const RENDER_DURATION: u64 = 2_000_000_000;

/// Collecting ends once this many bytes are there.
pub const RENDER_SIZE: usize = 65_536;

/// A single read of rows gives this many bytes at most.
pub const ROW_READ_SIZE: usize = 4_096;

/// A single read of rows times out after this long, in milliseconds.
pub const ROW_READ_TIMEOUT: u64 = 350;

/// With data at hand, collecting ends after this many timeouts in a row.
pub const MAX_TIMEOUT_STREAK: u32 = 3;

/// How long to let the player work on the setup request, in milliseconds.
pub const SETUP_PAUSE: u64 = 150;

/// How long to wait for menu packets, in milliseconds.
pub const FALLBACK_PAUSE: u64 = 300;

/// How far a rendered menu has come in.
#[derive(Clone, Copy, Debug, PartialEq, Eq, Structural)]
pub enum RenderState {
    WaitingForData,
    /// The header message came.
    ReceivedHeader,
    /// A row came.
    ReceivingRows,
    /// The footer message came.
    Complete,
}

/// The rows of a menu, as far as they came in.
pub struct RenderCollector {
    data: Vec<u8>,
    state: RenderState,
    timeouts: u32,
    started: u64,
}

/// View of [`RenderCollector`].
#[verifier::ext_equal]
pub struct CollectorView {
    pub data: Seq<u8>,
    pub state: RenderState,
    /// Timeouts since data last came.
    pub timeouts: u32,
    pub started: u64,
}

/// Whether the bytes `a`, `b` stand side by side somewhere before the last byte.
pub open spec fn has_pair(data: Seq<u8>, a: u8, b: u8) -> bool {
    exists|i: int| 0 <= i < data.len() - 2 && #[trigger] data[i] == a && data[i + 1] == b
}

/// The state after more data came: `data` is all of it. A footer anywhere ends the menu.
pub open spec fn render_state(state: RenderState, data: Seq<u8>) -> RenderState {
    let state = if state == RenderState::WaitingForData && data.len() >= 13 && message_kind(data)
        == 0x4001 {
        RenderState::ReceivedHeader
    } else {
        state
    };
    if data.len() > 13 && has_pair(data, 0x42, 0x01) {
        RenderState::Complete
    } else if data.len() > 13 && state == RenderState::ReceivedHeader && has_pair(
        data,
        0x41,
        0x01,
    ) {
        RenderState::ReceivingRows
    } else {
        state
    }
}

/// The time from `then` to `now`: zero if `then` is later.
pub open spec fn elapsed(then: u64, now: u64) -> int {
    if then <= now {
        now - then
    } else {
        0
    }
}

impl CollectorView {
    /// Nothing collected yet.
    pub open spec fn empty(now: u64) -> CollectorView {
        CollectorView {
            data: Seq::empty(),
            state: RenderState::WaitingForData,
            timeouts: 0,
            started: now,
        }
    }

    /// Whether to go on reading.
    pub open spec fn wants_more(self, now: u64) -> bool {
        &&& elapsed(self.started, now) < RENDER_DURATION
        &&& self.data.len() < RENDER_SIZE
        &&& self.state != RenderState::Complete
    }

    /// After a read gave `more`.
    pub open spec fn with_data(self, more: Seq<u8>) -> CollectorView {
        CollectorView {
            data: self.data + more,
            state: render_state(self.state, self.data + more),
            timeouts: 0,
            started: self.started,
        }
    }

    /// After a read timed out.
    pub open spec fn with_timeout(self) -> CollectorView {
        CollectorView {
            timeouts: if self.timeouts < u32::MAX {
                (self.timeouts + 1) as u32
            } else {
                u32::MAX
            },
            ..self
        }
    }

    /// Whether the timeouts so far mean that no more will come.
    pub open spec fn given_up(self) -> bool {
        self.timeouts >= MAX_TIMEOUT_STREAK && self.data.len() > 0
    }
}

impl View for RenderCollector {
    type V = CollectorView;

    closed spec fn view(&self) -> CollectorView {
        CollectorView {
            data: self.data@,
            state: self.state,
            timeouts: self.timeouts,
            started: self.started,
        }
    }
}

/// Whether the bytes `a`, `b` stand side by side somewhere before the last byte.
fn find_pair(data: &[u8], a: u8, b: u8) -> (found: bool)
    ensures
        found == has_pair(data@, a, b),
{
    let mut i: usize = 0;
    while i < data.len() && data.len() - i > 2
        invariant
            i <= data@.len(),
            forall|k: int|
                0 <= k < i && k < data@.len() - 2 ==> !(#[trigger] data@[k] == a && data@[k + 1]
                    == b),
        decreases data@.len() - i,
    {
        if data[i] == a && data[i + 1] == b {
            return true;
        }
        i = i + 1;
    }
    false
}

/// The time from `then` to `now`.
pub fn time_since(then: u64, now: u64) -> (time: u64)
    ensures
        time == elapsed(then, now),
{
    if then <= now {
        now - then
    } else {
        0
    }
}

impl RenderCollector {
    /// Starts to collect.
    pub fn new(now: u64) -> (collector: RenderCollector)
        ensures
            collector@ == CollectorView::empty(now),
    {
        let collector = RenderCollector {
            data: Vec::new(),
            state: RenderState::WaitingForData,
            timeouts: 0,
            started: now,
        };
        assert(collector@ =~= CollectorView::empty(now));
        collector
    }

    /// Whether to go on reading.
    pub fn wants_more(&self, now: u64) -> (more: bool)
        ensures
            more == self@.wants_more(now),
    {
        time_since(self.started, now) < RENDER_DURATION && self.data.len() < RENDER_SIZE
            && self.state != RenderState::Complete
    }

    /// Takes in what a read gave.
    pub fn add_data(&mut self, more: &[u8])
        ensures
            final(self)@ == old(self)@.with_data(more@),
    {
        self.timeouts = 0;
        append(&mut self.data, more);
        let data = self.data.as_slice();
        if self.state == RenderState::WaitingForData && data.len() >= 13
            && crate::bytes::read_be16(data, 11) == 0x4001 {
            self.state = RenderState::ReceivedHeader;
        }
        if data.len() > 13 {
            if find_pair(data, 0x42, 0x01) {
                self.state = RenderState::Complete;
            } else if self.state == RenderState::ReceivedHeader && find_pair(data, 0x41, 0x01) {
                self.state = RenderState::ReceivingRows;
            }
        }
        assert(self@ =~= old(self)@.with_data(more@));
    }

    /// Takes in that a read timed out.
    pub fn add_timeout(&mut self)
        ensures
            final(self)@ == old(self)@.with_timeout(),
    {
        self.timeouts = self.timeouts.saturating_add(1);
        assert(self@ =~= old(self)@.with_timeout());
    }

    /// Whether the timeouts so far mean that no more will come.
    pub fn has_given_up(&self) -> (done: bool)
        ensures
            done == self@.given_up(),
    {
        self.timeouts >= MAX_TIMEOUT_STREAK && self.data.len() > 0
    }

    /// The metadata in what was collected.
    pub fn parse_render_response(&self, now: u64) -> (metadata: Option<TrackMetadata>)
        ensures
            metadata_view(metadata) == metadata_in(
                strings_from(LengthUnit::Units, self@.data, 0),
                now,
            ),
    {
        parse_rendered_rows(self.data.as_slice(), now)
    }
}

/// What is awaited next in a conversation.
#[derive(Clone, Copy, Debug, PartialEq, Eq, Structural)]
pub enum FetchStage {
    /// Connected; nothing sent.
    Start,
    GreetingSent,
    GreetingReply,
    SetupSent,
    SetupReply,
    SetupPause,
    MetadataSent,
    MetadataReply,
    RenderSent,
    RenderAck,
    Rows,
    FallbackPause,
    MenuPackets,
    Finished,
}

/// What an action led to.
pub enum FetchReply {
    /// It was done.
    Done,
    /// A read gave these bytes: none at the end of the stream.
    Data(Vec<u8>),
    /// A read timed out.
    TimedOut,
    /// It failed otherwise.
    Failed,
    /// The menu packets that were waiting.
    Packets(Vec<Vec<u8>>),
}

/// View of [`FetchReply`].
pub enum ReplyView {
    Done,
    Data(Seq<u8>),
    TimedOut,
    Failed,
    Packets(Seq<Seq<u8>>),
}

impl View for FetchReply {
    type V = ReplyView;

    open spec fn view(&self) -> ReplyView {
        match self {
            FetchReply::Done => ReplyView::Done,
            FetchReply::Data(data) => ReplyView::Data(data@),
            FetchReply::TimedOut => ReplyView::TimedOut,
            FetchReply::Failed => ReplyView::Failed,
            FetchReply::Packets(packets) => ReplyView::Packets(packet_views(packets@)),
        }
    }
}

/// What to do next.
#[derive(Debug)]
pub enum FetchAction {
    /// Write all of these bytes.
    Write(Vec<u8>),
    /// Read once, at most this many bytes.
    Read(usize),
    /// Wait this many milliseconds.
    Pause(u64),
    /// Read once, at most [`ROW_READ_SIZE`] bytes, with the timeout [`ROW_READ_TIMEOUT`].
    ReadRows,
    /// Take the menu packets that wait for this conversation: see
    /// [`MetadataFetch::take_packets`].
    TakeMenuPackets,
    /// Close the connection: this was found.
    Finish(Option<TrackMetadata>),
}

/// View of [`FetchAction`].
#[verifier::ext_equal]
pub enum ActionView {
    Write(Seq<u8>),
    Read(usize),
    Pause(u64),
    ReadRows,
    TakeMenuPackets,
    Finish(Option<MetadataView>),
}

impl View for FetchAction {
    type V = ActionView;

    open spec fn view(&self) -> ActionView {
        match self {
            FetchAction::Write(data) => ActionView::Write(data@),
            FetchAction::Read(size) => ActionView::Read(*size),
            FetchAction::Pause(time) => ActionView::Pause(*time),
            FetchAction::ReadRows => ActionView::ReadRows,
            FetchAction::TakeMenuPackets => ActionView::TakeMenuPackets,
            FetchAction::Finish(metadata) => ActionView::Finish(metadata_view(*metadata)),
        }
    }
}

/// A conversation with a database server.
pub struct MetadataFetch {
    stage: FetchStage,
    our_device_id: u8,
    request: FetchRequest,
    rows: RenderCollector,
}

/// View of [`MetadataFetch`].
#[verifier::ext_equal]
pub struct FetchView {
    pub stage: FetchStage,
    pub our_device_id: u8,
    pub request: FetchRequest,
    pub rows: CollectorView,
}

impl View for MetadataFetch {
    type V = FetchView;

    closed spec fn view(&self) -> FetchView {
        FetchView {
            stage: self.stage,
            our_device_id: self.our_device_id,
            request: self.request,
            rows: self.rows@,
        }
    }
}

impl FetchView {
    /// At `stage`.
    pub open spec fn at(self, stage: FetchStage) -> FetchView {
        FetchView { stage, ..self }
    }

    /// The conversation ends with nothing found.
    pub open spec fn nothing(self) -> (FetchView, ActionView) {
        (self.at(FetchStage::Finished), ActionView::Finish(None))
    }

    /// Goes on with reading rows, or ends reading. What the rows hold is the result; where
    /// they hold no title, menu packets may.
    pub open spec fn rows_or_end(self, end: bool, now: u64) -> (FetchView, ActionView) {
        if !end && self.rows.wants_more(now) {
            (self.at(FetchStage::Rows), ActionView::ReadRows)
        } else {
            match metadata_in(strings_from(LengthUnit::Units, self.rows.data, 0), now) {
                Some(found) => (
                    self.at(FetchStage::Finished),
                    ActionView::Finish(Some(found)),
                ),
                None => (self.at(FetchStage::FallbackPause), ActionView::Pause(FALLBACK_PAUSE)),
            }
        }
    }

    /// The next stage and action, given what the last action led to.
    pub open spec fn next(self, reply: ReplyView, now: u64) -> (FetchView, ActionView) {
        let key = self.request.key;
        match self.stage {
            FetchStage::Start => (
                self.at(FetchStage::GreetingSent),
                ActionView::Write(number_field(1)),
            ),
            FetchStage::GreetingSent => if reply is Done {
                (self.at(FetchStage::GreetingReply), ActionView::Read(16))
            } else {
                self.nothing()
            },
            FetchStage::GreetingReply => match reply {
                ReplyView::Data(data) if data.len() > 0 => (
                    self.at(FetchStage::SetupSent),
                    ActionView::Write(setup_request(self.our_device_id)),
                ),
                _ => self.nothing(),
            },
            FetchStage::SetupSent => if reply is Done {
                (self.at(FetchStage::SetupReply), ActionView::Read(64))
            } else {
                self.nothing()
            },
            FetchStage::SetupReply => match reply {
                ReplyView::Data(data) if data.len() > 0 => (
                    self.at(FetchStage::SetupPause),
                    ActionView::Pause(SETUP_PAUSE),
                ),
                _ => self.nothing(),
            },
            FetchStage::SetupPause => (
                self.at(FetchStage::MetadataSent),
                ActionView::Write(metadata_request(self.our_device_id, key.slot, key.track_id)),
            ),
            FetchStage::MetadataSent => if reply is Done {
                (self.at(FetchStage::MetadataReply), ActionView::Read(256))
            } else {
                self.nothing()
            },
            FetchStage::MetadataReply => match reply {
                ReplyView::Data(data) => match menu_reply(data) {
                    Some(menu) => (
                        self.at(FetchStage::RenderSent),
                        ActionView::Write(
                            render_request(
                                self.our_device_id,
                                key.slot,
                                menu.menu_size,
                                menu.menu_size,
                                if menu.txid < u32::MAX {
                                    (menu.txid + 1) as u32
                                } else {
                                    0
                                },
                            ),
                        ),
                    ),
                    None => self.nothing(),
                },
                _ => self.nothing(),
            },
            FetchStage::RenderSent => if reply is Done {
                (self.at(FetchStage::RenderAck), ActionView::Read(4096))
            } else {
                self.nothing()
            },
            FetchStage::RenderAck => FetchView {
                rows: CollectorView::empty(now),
                ..self
            }.rows_or_end(false, now),
            FetchStage::Rows => match reply {
                ReplyView::Data(data) => if data.len() == 0 {
                    self.rows_or_end(true, now)
                } else {
                    FetchView { rows: self.rows.with_data(data), ..self }.rows_or_end(false, now)
                },
                ReplyView::TimedOut => {
                    let rows = self.rows.with_timeout();
                    FetchView { rows, ..self }.rows_or_end(rows.given_up(), now)
                },
                _ => self.rows_or_end(true, now),
            },
            FetchStage::FallbackPause => (
                self.at(FetchStage::MenuPackets),
                ActionView::TakeMenuPackets,
            ),
            FetchStage::MenuPackets => match reply {
                ReplyView::Packets(packets) => (
                    self.at(FetchStage::Finished),
                    ActionView::Finish(metadata_in(strings_in_packets(packets), now)),
                ),
                _ => self.nothing(),
            },
            FetchStage::Finished => self.nothing(),
        }
    }
}

impl MetadataFetch {
    /// A conversation about the track of `request`, held as player `our_device_id`.
    pub fn new(our_device_id: u8, request: FetchRequest, now: u64) -> (fetch: MetadataFetch)
        ensures
            fetch@ == (FetchView {
                stage: FetchStage::Start,
                our_device_id,
                request,
                rows: CollectorView::empty(now),
            }),
    {
        MetadataFetch {
            stage: FetchStage::Start,
            our_device_id,
            request,
            rows: RenderCollector::new(now),
        }
    }

    /// A conversation about the track of `request`, held under our number on the network.
    pub fn open(client: &ProDjLinkClient, request: FetchRequest, now: u64) -> (fetch: MetadataFetch)
        ensures
            fetch@ == (FetchView {
                stage: FetchStage::Start,
                our_device_id: client@.our_device_id,
                request,
                rows: CollectorView::empty(now),
            }),
    {
        MetadataFetch::new(client.our_device_id(), request, now)
    }

    /// Takes all waiting menu packets, and replies with those of the player that was asked.
    pub fn take_packets(&self, client: &mut ProDjLinkClient) -> (reply: FetchReply)
        requires
            old(client).wf(),
        ensures
            final(client).wf(),
            final(client)@ == (ClientView { packets: Seq::empty(), ..old(client)@ }),
            reply@ == ReplyView::Packets(
                packets_for(
                    old(client)@.packets,
                    self@.request.key.device_id,
                    self@.request.device_ip,
                ),
            ),
    {
        FetchReply::Packets(
            client.take_menu_packets(self.request.key.device_id, self.request.device_ip),
        )
    }

    /// Ends the conversation with nothing found.
    fn nothing(&mut self) -> (action: FetchAction)
        ensures
            (final(self)@, action@) == old(self)@.nothing(),
    {
        self.stage = FetchStage::Finished;
        FetchAction::Finish(None)
    }

    /// Goes on with reading rows, or ends reading.
    fn rows_or_end(&mut self, end: bool, now: u64) -> (action: FetchAction)
        ensures
            (final(self)@, action@) == old(self)@.rows_or_end(end, now),
    {
        if !end && self.rows.wants_more(now) {
            self.stage = FetchStage::Rows;
            return FetchAction::ReadRows;
        }
        match self.rows.parse_render_response(now) {
            Some(found) => {
                self.stage = FetchStage::Finished;
                FetchAction::Finish(Some(found))
            },
            None => {
                self.stage = FetchStage::FallbackPause;
                FetchAction::Pause(FALLBACK_PAUSE)
            },
        }
    }

    /// The next action, given what the last one led to.
    pub fn step(&mut self, reply: FetchReply, now: u64) -> (action: FetchAction)
        ensures
            (final(self)@, action@) == old(self)@.next(reply@, now),
    {
        let key = self.request.key;
        match self.stage {
            FetchStage::Start => {
                self.stage = FetchStage::GreetingSent;
                FetchAction::Write(build_greeting())
            },
            FetchStage::GreetingSent => match reply {
                FetchReply::Done => {
                    self.stage = FetchStage::GreetingReply;
                    FetchAction::Read(16)
                },
                _ => self.nothing(),
            },
            FetchStage::GreetingReply => match reply {
                FetchReply::Data(data) => if data.len() > 0 {
                    self.stage = FetchStage::SetupSent;
                    FetchAction::Write(build_setup_request(self.our_device_id, key.device_id))
                } else {
                    self.nothing()
                },
                _ => self.nothing(),
            },
            FetchStage::SetupSent => match reply {
                FetchReply::Done => {
                    self.stage = FetchStage::SetupReply;
                    FetchAction::Read(64)
                },
                _ => self.nothing(),
            },
            FetchStage::SetupReply => match reply {
                FetchReply::Data(data) => if data.len() > 0 {
                    self.stage = FetchStage::SetupPause;
                    FetchAction::Pause(SETUP_PAUSE)
                } else {
                    self.nothing()
                },
                _ => self.nothing(),
            },
            FetchStage::SetupPause => {
                self.stage = FetchStage::MetadataSent;
                FetchAction::Write(
                    build_metadata_request(
                        self.our_device_id,
                        key.device_id,
                        key.slot,
                        key.track_id,
                    ),
                )
            },
            FetchStage::MetadataSent => match reply {
                FetchReply::Done => {
                    self.stage = FetchStage::MetadataReply;
                    FetchAction::Read(256)
                },
                _ => self.nothing(),
            },
            FetchStage::MetadataReply => match reply {
                FetchReply::Data(data) => match read_menu_reply(data.as_slice()) {
                    Some(menu) => {
                        self.stage = FetchStage::RenderSent;
                        FetchAction::Write(
                            build_render_request(
                                self.our_device_id,
                                key.device_id,
                                key.slot,
                                key.track_id,
                                menu.menu_size,
                                menu.menu_size,
                                menu.txid.wrapping_add(1),
                            ),
                        )
                    },
                    None => self.nothing(),
                },
                _ => self.nothing(),
            },
            FetchStage::RenderSent => match reply {
                FetchReply::Done => {
                    self.stage = FetchStage::RenderAck;
                    FetchAction::Read(4096)
                },
                _ => self.nothing(),
            },
            FetchStage::RenderAck => {
                self.rows = RenderCollector::new(now);
                self.rows_or_end(false, now)
            },
            FetchStage::Rows => match reply {
                FetchReply::Data(data) => if data.len() == 0 {
                    self.rows_or_end(true, now)
                } else {
                    self.rows.add_data(data.as_slice());
                    self.rows_or_end(false, now)
                },
                FetchReply::TimedOut => {
                    self.rows.add_timeout();
                    let end = self.rows.has_given_up();
                    self.rows_or_end(end, now)
                },
                _ => self.rows_or_end(true, now),
            },
            FetchStage::FallbackPause => {
                self.stage = FetchStage::MenuPackets;
                FetchAction::TakeMenuPackets
            },
            FetchStage::MenuPackets => match reply {
                FetchReply::Packets(packets) => {
                    self.stage = FetchStage::Finished;
                    FetchAction::Finish(parse_menu_packets(&packets, now))
                },
                _ => self.nothing(),
            },
            FetchStage::Finished => self.nothing(),
        }
    }
}

} // verus!
