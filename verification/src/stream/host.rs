//! The producing half of a host: what becomes of each captured frame.
//!
//! The program around the library captures, encodes and queues; [`FrameProducer`] decides what is
//! captured, encoded and queued. Times are lengths of time since the stream was started.
use crate::desktop::convert::{packet_failure, packet_to_message, video_message};
use crate::desktop::dirty::{
    law_reported_area_fits_the_frame, DirtyRegionDetector, SeenFrame,
};
use crate::desktop::region::{
    area_sum, changed_area, encode_region_update, fits_memory, update_failure, update_message,
};
use crate::error::{DcError, DcErrorView};
use crate::media::frame::{
    copy_cursor, no_metadata, CursorShape, CursorUpdate, CursorUpdateView, DamageRect, FrameView,
    VideoFrame,
};
use crate::media::packet::{EncodedVideoPacket, PacketView};
use crate::media::synthetic::{frame_interval, interval_nanos};
use crate::protocol::format::{encode_failure, message_bytes};
use crate::protocol::types::MessageView;
use crate::protocol::{Capabilities, WireMessage};
use crate::stream::control::{ControlView, StreamControl};
use crate::stream::frames::{
    cursor_message, cursor_to_message, effectively_zero, is_effectively_zero_frame,
};
use crate::stream::profile::at_most;
use crate::time::Duration;
use vstd::prelude::*;
use vstd::slice::slice_to_vec;

verus! {

/// For how long a black first frame is not believed, in nanoseconds.
pub const STARTUP_ZERO_FRAME_GRACE: u128 = 2_000_000_000;

/// How long an unchanged desktop goes without a full frame, in nanoseconds.
pub const FULL_FRAME_REFRESH_INTERVAL: u128 = 5_000_000_000;

/// The part of a frame, in percent, up to which changes are sent as regions.
pub const REGION_UPDATE_MAX_AREA_PERCENT: u64 = 35;

/// The size up to which changes are sent as regions.
pub const REGION_UPDATE_MAX_BYTES: usize = 64 * 1024;

/// What the two ends of a stream agreed on.
#[derive(Clone, Copy, Debug, Eq, PartialEq, Structural)]
pub struct MediaFeatures {
    pub hybrid_video: bool,
    pub desktop_optimizations: bool,
    pub h264_nal_datagrams: bool,
}

/// What is agreed on with a peer of the given capabilities: without reliable keyframes there are
/// neither region updates nor datagrams for single units.
pub open spec fn agreed(peer: Capabilities) -> MediaFeatures {
    MediaFeatures {
        hybrid_video: peer.hybrid_video,
        desktop_optimizations: peer.hybrid_video && peer.desktop_optimizations,
        h264_nal_datagrams: peer.hybrid_video && peer.h264_nal_datagrams,
    }
}

impl MediaFeatures {
    /// What is agreed on with a peer of the given capabilities.
    pub fn negotiated(peer: Capabilities) -> (features: MediaFeatures)
        ensures
            features == agreed(peer),
    {
        MediaFeatures {
            hybrid_video: peer.hybrid_video,
            desktop_optimizations: peer.hybrid_video && peer.desktop_optimizations,
            h264_nal_datagrams: peer.hybrid_video && peer.h264_nal_datagrams,
        }
    }
}

/// What both ends of a desktop stream can do.
pub open spec fn stream_capabilities() -> Capabilities {
    Capabilities {
        desktop: true,
        control_input: true,
        terminal: false,
        command_execution: false,
        file_transfer: false,
        clipboard: false,
        ssh_compatibility: false,
        hybrid_video: true,
        desktop_optimizations: true,
        h264_nal_datagrams: true,
    }
}

/// The capabilities that both ends announce.
pub fn media_capabilities() -> (capabilities: Capabilities)
    ensures
        capabilities == (Capabilities {
            desktop: true,
            control_input: true,
            terminal: false,
            command_execution: false,
            file_transfer: false,
            clipboard: false,
            ssh_compatibility: false,
            hybrid_video: true,
            desktop_optimizations: true,
            h264_nal_datagrams: true,
        }),
        capabilities == stream_capabilities(),
{
    Capabilities {
        desktop: true,
        control_input: true,
        terminal: false,
        command_execution: false,
        file_transfer: false,
        clipboard: false,
        ssh_compatibility: false,
        hybrid_video: true,
        desktop_optimizations: true,
        h264_nal_datagrams: true,
    }
}

/// The size that slices are kept below, where datagrams of a size can be sent.
pub open spec fn budget_below(size: usize) -> Option<int> {
    if size > u32::MAX + 128 {
        None
    } else if size < 384 {
        Some(256)
    } else {
        Some(size - 128)
    }
}

/// The size that an encoder should keep its slices below: a datagram less the room for its
/// envelope, but not less than 256 bytes.
pub fn slice_budget(max_datagram_size: Option<usize>) -> (result: Result<u32, DcError>)
    ensures
        match max_datagram_size {
            None => result matches Err(error) && error@ == DcErrorView::Unsupported(
                "peer did not negotiate QUIC DATAGRAM support"@,
            ),
            Some(size) => if size > u32::MAX + 128 {
                result matches Err(error) && error@ == DcErrorView::InvalidInput(
                    "datagram size exceeds encoder limits"@,
                )
            } else {
                result matches Ok(budget) && budget as int == (if size < 384 {
                    256
                } else {
                    size - 128
                })
            },
        },
        result is Ok == (max_datagram_size is Some && budget_below(max_datagram_size->Some_0) is Some),
        result matches Ok(budget) ==> budget_below(max_datagram_size->Some_0) == Some(budget as int),
{
    match max_datagram_size {
        None => Err(DcError::unsupported("peer did not negotiate QUIC DATAGRAM support")),
        Some(size) => {
            let budget: usize = if size < 384 {
                256
            } else {
                size - 128
            };
            if budget as u64 > 0xffff_ffff {
                return Err(DcError::invalid_input("datagram size exceeds encoder limits"));
            }
            Ok(budget as u32)
        },
    }
}

/// Whether a captured frame starts the stream: it shows something, or it is too late to wait for a
/// frame that does.
pub open spec fn starts_stream(frame: FrameView, elapsed: Duration) -> bool {
    !effectively_zero(frame.data) || elapsed.nanos >= STARTUP_ZERO_FRAME_GRACE
}

/// Finds the first frame of a stream. A screen that is being started shows black for a moment;
/// such a frame is used only if nothing better comes in time.
#[derive(Debug)]
pub struct StartupCapture {
    candidate: Option<VideoFrame>,
}

impl View for StartupCapture {
    type V = Option<FrameView>;

    closed spec fn view(&self) -> Option<FrameView> {
        match self.candidate {
            Some(frame) => Some(frame@),
            None => None,
        }
    }
}

impl StartupCapture {
    pub fn new() -> (capture: StartupCapture)
        ensures
            capture@ is None,
    {
        StartupCapture { candidate: None }
    }

    /// A frame was captured: the first frame of the stream, or a black one that is kept.
    pub fn on_frame(&mut self, frame: VideoFrame, elapsed: Duration) -> (first: Option<VideoFrame>)
        ensures
            first is Some == starts_stream(frame@, elapsed),
            first matches Some(given) ==> given == frame && final(self)@ == old(self)@,
            first is None ==> final(self)@ == Some(frame@),
    {
        if is_effectively_zero_frame(&frame) && elapsed.nanos < STARTUP_ZERO_FRAME_GRACE {
            self.candidate = Some(frame);
            return None;
        }
        Some(frame)
    }


    /// Nothing was captured: after the time of grace the black frame is used.
    pub fn on_timeout(&mut self, elapsed: Duration) -> (first: Option<VideoFrame>)
        ensures
            if elapsed.nanos >= STARTUP_ZERO_FRAME_GRACE {
                &&& final(self)@ is None
                &&& match first {
                    Some(frame) => old(self)@ == Some(frame@),
                    None => old(self)@ is None,
                }
            } else {
                first is None && final(self)@ == old(self)@
            },
    {
        if elapsed.nanos >= STARTUP_ZERO_FRAME_GRACE {
            self.candidate.take()
        } else {
            None
        }
    }
}

/// A message that is queued for the viewer.
#[derive(Debug)]
pub struct EncodedFrame {
    pub message: WireMessage,
    pub sequence: u64,
    pub encoded_bytes: u64,
    /// Nothing later counts before the viewer has acknowledged this frame.
    pub reliable_barrier: bool,
}

/// The contents of an [`EncodedFrame`].
pub struct EncodedView {
    pub message: MessageView,
    pub sequence: u64,
    pub encoded_bytes: u64,
    pub reliable_barrier: bool,
}

impl View for EncodedFrame {
    type V = EncodedView;

    open spec fn view(&self) -> EncodedView {
        EncodedView {
            message: self.message@,
            sequence: self.sequence,
            encoded_bytes: self.encoded_bytes,
            reliable_barrier: self.reliable_barrier,
        }
    }
}

/// The changed parts of a frame.
#[derive(Debug)]
pub struct DirtyRegions {
    rects: Vec<DamageRect>,
}

impl View for DirtyRegions {
    type V = Seq<DamageRect>;

    closed spec fn view(&self) -> Seq<DamageRect> {
        self.rects@
    }
}

impl DirtyRegions {
    #[verifier::type_invariant]
    spec fn countable(self) -> bool {
        area_sum(self.rects@) <= u64::MAX
    }

    /// The rectangles.
    pub fn rects(&self) -> (rects: &[DamageRect])
        ensures
            rects@ == self@,
            area_sum(self@) <= u64::MAX,
    {
        proof {
            use_type_invariant(self);
        }
        self.rects.as_slice()
    }
}

/// What has to happen to the encoder before a frame.
#[derive(Clone, Copy, Debug, Eq, PartialEq, Structural)]
pub enum EncoderAction {
    /// Nothing.
    Keep,
    /// The next frame has to be a keyframe.
    ForceKeyframe,
    /// An encoder with these rates takes its place.
    Recreate { bitrate: u32, fps: u32 },
}

impl EncoderAction {
    /// Whether the next frame has to be sent whole: it has, unless the encoder goes on as it is.
    pub fn owes_full_frame(&self) -> (full: bool)
        ensures
            full == !(*self is Keep),
    {
        match self {
            EncoderAction::Keep => false,
            _ => true,
        }
    }
}

/// What becomes of a frame.
#[derive(Debug)]
pub enum FrameAction {
    /// Its changed parts are queued, unless the queue is full.
    Region(EncodedFrame),
    /// Nothing changed.
    Skip,
    /// It is encoded.
    Encode,
}

/// What becomes of a frame.
pub enum FrameActionView {
    Region(EncodedView),
    Skip,
    Encode,
}

impl View for FrameAction {
    type V = FrameActionView;

    open spec fn view(&self) -> FrameActionView {
        match *self {
            FrameAction::Region(frame) => FrameActionView::Region(frame@),
            FrameAction::Skip => FrameActionView::Skip,
            FrameAction::Encode => FrameActionView::Encode,
        }
    }
}

/// What happens when nothing could be captured.
#[derive(Debug)]
pub enum TimeoutAction {
    /// The stream ends.
    Stop,
    /// The last frame is sent once more.
    Resend(VideoFrame),
    /// Capture is tried again.
    Wait,
}

/// What happens when nothing could be captured.
pub enum TimeoutActionView {
    Stop,
    Resend(FrameView),
    Wait,
}

impl View for TimeoutAction {
    type V = TimeoutActionView;

    open spec fn view(&self) -> TimeoutActionView {
        match *self {
            TimeoutAction::Stop => TimeoutActionView::Stop,
            TimeoutAction::Resend(frame) => TimeoutActionView::Resend(frame@),
            TimeoutAction::Wait => TimeoutActionView::Wait,
        }
    }
}

/// The number after a sequence number.
pub open spec fn following(sequence: u64) -> u64 {
    if sequence == u64::MAX {
        0
    } else {
        (sequence + 1) as u64
    }
}

/// A frame that is sent once more, later by the given time.
pub open spec fn repeated(previous: FrameView, sequence: u64, step: Duration) -> FrameView {
    FrameView {
        sequence,
        timestamp: previous.timestamp.plus(step),
        layout: previous.layout,
        data: previous.data,
        metadata: no_metadata(),
    }
}

/// The state of a [`FrameProducer`].
pub struct ProducerView {
    pub features: MediaFeatures,
    /// The rates of the encoder.
    pub bitrate: u32,
    pub fps: u32,
    /// The numbers of the next picture or region update and of the next cursor message.
    pub media_sequence: u64,
    pub cursor_sequence: u64,
    /// The last cursor that the viewer was told.
    pub last_cursor: Option<CursorUpdateView>,
    /// The frame that the next one is compared with.
    pub seen: SeenFrame,
    /// When the last full frame was encoded.
    pub full_frame_at: Option<Duration>,
    /// The last frame and the number of the last capture.
    pub last_frame: Option<FrameView>,
    pub last_sequence: u64,
    /// When the next frame is due.
    pub next_frame_at: Duration,
}

impl ProducerView {
    /// The time between two frames.
    pub open spec fn interval(self) -> Duration {
        Duration { nanos: interval_nanos(self.fps as nat) as u128 }
    }

    /// Whether the last full frame is too old.
    pub open spec fn refresh_due(self, now: Duration) -> bool {
        match self.full_frame_at {
            None => true,
            Some(at) => now.minus(at).nanos >= FULL_FRAME_REFRESH_INTERVAL,
        }
    }

    /// Whether a frame shows another cursor than the viewer was told.
    pub open spec fn cursor_changed(self, frame: FrameView) -> bool {
        &&& self.features.desktop_optimizations
        &&& frame.metadata.cursor is Some
        &&& self.last_cursor != frame.metadata.cursor
    }

    /// The message that tells the viewer the cursor of a frame.
    pub open spec fn cursor_news(self, frame: FrameView) -> MessageView {
        cursor_message(self.cursor_sequence, frame.metadata.cursor->Some_0)
    }

    /// The producer after it looked at a frame.
    pub open spec fn after_frame(self, frame: FrameView) -> ProducerView {
        ProducerView {
            seen: SeenFrame::of(frame),
            last_sequence: frame.sequence,
            cursor_sequence: if self.cursor_changed(frame) {
                following(self.cursor_sequence)
            } else {
                self.cursor_sequence
            },
            ..self
        }
    }

    /// What has to happen to the encoder, given the requests of the viewer.
    pub open spec fn encoder_action(self, control: ControlView) -> EncoderAction {
        if control.target_bitrate != self.bitrate || control.target_fps != self.fps {
            EncoderAction::Recreate { bitrate: control.target_bitrate, fps: control.target_fps }
        } else if control.keyframe_requested {
            EncoderAction::ForceKeyframe
        } else {
            EncoderAction::Keep
        }
    }

    /// Whether the changed parts of a frame may be sent instead of the frame: the peer takes
    /// them, no full frame is owed, and they are small.
    pub open spec fn regions_allowed(
        self,
        frame: FrameView,
        dirty: Seq<DamageRect>,
        full: bool,
        now: Duration,
    ) -> bool {
        let area = frame.layout.width() as nat * frame.layout.height() as nat;
        &&& self.features.desktop_optimizations
        &&& !full
        &&& dirty.len() > 0
        &&& !self.refresh_due(now)
        &&& at_most(area_sum(dirty) * 100, u64::MAX as nat) <= at_most(
            area * REGION_UPDATE_MAX_AREA_PERCENT as nat,
            u64::MAX as nat,
        )
    }

    /// What becomes of a frame that is not sent as regions: it is left out if nothing changed and
    /// no full frame is owed.
    pub open spec fn without_regions(
        self,
        dirty: Seq<DamageRect>,
        full: bool,
        now: Duration,
    ) -> FrameActionView {
        if dirty.len() == 0 && !full && !self.refresh_due(now) {
            FrameActionView::Skip
        } else {
            FrameActionView::Encode
        }
    }

    /// What becomes of a frame. `full` tells whether a full frame is owed.
    pub open spec fn choice(
        self,
        frame: FrameView,
        dirty: Seq<DamageRect>,
        full: bool,
        now: Duration,
    ) -> Result<FrameActionView, DcErrorView> {
        let message = update_message(frame, dirty, self.media_sequence);
        if !self.regions_allowed(frame, dirty, full, now) {
            Ok(self.without_regions(dirty, full, now))
        } else if update_failure(frame, dirty) is Some {
            Err(update_failure(frame, dirty)->Some_0)
        } else if encode_failure(message) is Some {
            Err(encode_failure(message)->Some_0)
        } else if message_bytes(message).len() > REGION_UPDATE_MAX_BYTES {
            Ok(FrameActionView::Encode)
        } else {
            Ok(
                FrameActionView::Region(
                    EncodedView {
                        message,
                        sequence: self.media_sequence,
                        encoded_bytes: message_bytes(message).len() as u64,
                        reliable_barrier: false,
                    },
                ),
            )
        }
    }

    /// A packet as it leaves: packets are numbered one after the other, whatever the numbers of
    /// the captures were.
    pub open spec fn numbered(self, packet: PacketView) -> PacketView {
        PacketView { sequence: self.media_sequence, ..packet }
    }

    /// What is queued for a packet.
    pub open spec fn queued(self, packet: PacketView, full: bool) -> EncodedView {
        EncodedView {
            message: video_message(self.numbered(packet)),
            sequence: self.media_sequence,
            encoded_bytes: packet.data.len() as u64,
            reliable_barrier: packet.keyframe && (self.media_sequence == 0 || full),
        }
    }

    /// The producer after a packet left at the given time.
    pub open spec fn after_packet(self, now: Duration) -> ProducerView {
        ProducerView {
            media_sequence: following(self.media_sequence),
            full_frame_at: Some(now),
            ..self
        }
    }

    /// The requests of the viewer after a packet was queued: a barrier makes the stream wait.
    pub open spec fn holds_up(self, queued: EncodedView, control: ControlView) -> ControlView {
        if queued.reliable_barrier && self.features.hybrid_video {
            ControlView { recovery_pending: true, ..control }
        } else {
            control
        }
    }

    /// The producer after it decided what becomes of a frame: a region update takes a number.
    pub open spec fn after_choice(self, action: FrameActionView) -> ProducerView {
        ProducerView {
            media_sequence: if action is Region {
                following(self.media_sequence)
            } else {
                self.media_sequence
            },
            ..self
        }
    }

    /// The producer after the viewer was told the cursor of a frame.
    pub open spec fn after_cursor(self, frame: FrameView) -> ProducerView {
        ProducerView {
            last_cursor: if frame.metadata.cursor is Some {
                frame.metadata.cursor
            } else {
                self.last_cursor
            },
            ..self
        }
    }

    /// The producer after it took the rates that the viewer asked for.
    pub open spec fn after_plan(self, control: ControlView) -> ProducerView {
        ProducerView { bitrate: control.target_bitrate, fps: control.target_fps, ..self }
    }

    /// The producer after a frame has been dealt with.
    pub open spec fn finished(self, frame: FrameView) -> ProducerView {
        ProducerView { last_frame: Some(frame), ..self }
    }

    /// The producer when it waits for the next frame, and for how long it sleeps.
    pub open spec fn paced(self, now: Duration) -> (ProducerView, Duration) {
        let next = self.next_frame_at.plus(self.interval());
        (
            ProducerView {
                next_frame_at: if now.nanos < next.nanos {
                    next
                } else {
                    now
                },
                ..self
            },
            next.minus(now),
        )
    }

    /// What happens when nothing could be captured.
    pub open spec fn on_timeout(self, control: ControlView, now: Duration) -> Result<
        TimeoutActionView,
        DcErrorView,
    > {
        let sequence = following(self.last_sequence);
        if control.shutdown {
            Ok(TimeoutActionView::Stop)
        } else if control.keyframe_requested {
            match self.last_frame {
                None => Err(
                    DcErrorView::Platform(
                        "keyframe requested before a recoverable frame existed"@,
                    ),
                ),
                Some(frame) => Ok(
                    TimeoutActionView::Resend(repeated(frame, sequence, self.interval())),
                ),
            }
        } else if self.features.desktop_optimizations && self.refresh_due(now) && self.last_frame
            is Some {
            Ok(
                TimeoutActionView::Resend(
                    repeated(
                        self.last_frame->Some_0,
                        sequence,
                        Duration { nanos: FULL_FRAME_REFRESH_INTERVAL },
                    ),
                ),
            )
        } else {
            Ok(TimeoutActionView::Wait)
        }
    }
}

fn same_bytes(first: &[u8], second: &[u8]) -> (same: bool)
    ensures
        same == (first@ == second@),
{
    if first.len() != second.len() {
        return false;
    }
    let mut index: usize = 0;
    while index < first.len()
        invariant
            first@.len() == second@.len(),
            index <= first@.len(),
            forall|i: int| 0 <= i < index ==> first@[i] == second@[i],
        decreases first@.len() - index,
    {
        if first[index] != second[index] {
            return false;
        }
        index = index + 1;
    }
    assert(first@ =~= second@);
    true
}

fn same_shape(first: &CursorShape, second: &CursorShape) -> (same: bool)
    ensures
        same == (first@ == second@),
{
    first.kind == second.kind && first.width == second.width && first.height == second.height
        && first.hotspot_x == second.hotspot_x && first.hotspot_y == second.hotspot_y
        && first.pitch == second.pitch && same_bytes(first.data.as_slice(), second.data.as_slice())
}

/// Whether two cursors are the same.
pub(crate) fn same_cursor(first: &CursorUpdate, second: &CursorUpdate) -> (same: bool)
    ensures
        same == (first@ == second@),
{
    let same_shapes = match (&first.shape, &second.shape) {
        (Some(a), Some(b)) => same_shape(a, b),
        (None, None) => true,
        _ => false,
    };
    same_shapes && first.visible == second.visible && first.x == second.x && first.y == second.y
}

fn next_after(sequence: u64) -> (next: u64)
    ensures
        next == following(sequence),
{
    if sequence == u64::MAX {
        0
    } else {
        sequence + 1
    }
}

fn repeat_frame(previous: &VideoFrame, sequence: u64, step: Duration) -> (result: Result<
    VideoFrame,
    DcError,
>)
    ensures
        result matches Ok(frame) && frame@ == repeated(previous@, sequence, step),
{
    let data = slice_to_vec(previous.data());
    VideoFrame::new(sequence, previous.timestamp().saturating_add(step), previous.layout(), data)
}

/// Decides what becomes of captured frames.
pub struct FrameProducer {
    features: MediaFeatures,
    bitrate: u32,
    fps: u32,
    media_sequence: u64,
    cursor_sequence: u64,
    last_cursor: Option<CursorUpdate>,
    detector: DirtyRegionDetector,
    full_frame_at: Option<Duration>,
    last_frame: Option<VideoFrame>,
    last_sequence: u64,
    next_frame_at: Duration,
}

impl View for FrameProducer {
    type V = ProducerView;

    closed spec fn view(&self) -> ProducerView {
        ProducerView {
            features: self.features,
            bitrate: self.bitrate,
            fps: self.fps,
            media_sequence: self.media_sequence,
            cursor_sequence: self.cursor_sequence,
            last_cursor: match self.last_cursor {
                Some(cursor) => Some(cursor@),
                None => None,
            },
            seen: self.detector@,
            full_frame_at: self.full_frame_at,
            last_frame: match self.last_frame {
                Some(frame) => Some(frame@),
                None => None,
            },
            last_sequence: self.last_sequence,
            next_frame_at: self.next_frame_at,
        }
    }
}

impl FrameProducer {
    #[verifier::type_invariant]
    spec fn moving(self) -> bool {
        self.fps > 0
    }

    /// A producer that starts now with the requested rates.
    pub fn new(features: MediaFeatures, control: &StreamControl, now: Duration) -> (producer:
        FrameProducer)
        ensures
            producer@.features == features,
            producer@.bitrate == control@.target_bitrate,
            producer@.fps == control@.target_fps,
            producer@.media_sequence == 0,
            producer@.cursor_sequence == 0,
            producer@.last_cursor is None,
            producer@.seen.dimensions is None,
            producer@.full_frame_at is None,
            producer@.last_frame is None,
            producer@.last_sequence == 0,
            producer@.next_frame_at == now,
    {
        FrameProducer {
            features,
            bitrate: control.target_bitrate(),
            fps: control.target_fps(),
            media_sequence: 0,
            cursor_sequence: 0,
            last_cursor: None,
            detector: DirtyRegionDetector::default(),
            full_frame_at: None,
            last_frame: None,
            last_sequence: 0,
            next_frame_at: now,
        }
    }

    /// The bit rate of the encoder.
    pub fn bitrate(&self) -> (bitrate: u32)
        ensures
            bitrate == self@.bitrate,
    {
        self.bitrate
    }

    /// The frames per second of the encoder.
    pub fn fps(&self) -> (fps: u32)
        ensures
            fps == self@.fps,
            fps > 0,
    {
        proof {
            use_type_invariant(self);
        }
        self.fps
    }

    /// Looks at a captured frame: finds what changed, and the message for a changed cursor.
    pub fn observe(&mut self, frame: &VideoFrame) -> (result: Result<
        (DirtyRegions, Option<EncodedFrame>),
        DcError,
    >)
        ensures
            final(self)@ == old(self)@.after_frame(frame@),
            match result {
                Ok((dirty, news)) => {
                    &&& dirty@ == old(self)@.seen.reported(frame@)
                    &&& if old(self)@.cursor_changed(frame@) {
                        let message = old(self)@.cursor_news(frame@);
                        &&& encode_failure(message) is None
                        &&& news matches Some(encoded) && encoded@ == (EncodedView {
                            message,
                            sequence: old(self)@.cursor_sequence,
                            encoded_bytes: message_bytes(message).len() as u64,
                            reliable_barrier: false,
                        })
                    } else {
                        news is None
                    }
                },
                Err(error) => {
                    &&& old(self)@.cursor_changed(frame@)
                    &&& encode_failure(old(self)@.cursor_news(frame@)) == Some(error@)
                },
            },
    {
        proof {
            use_type_invariant(&*self);
        }
        self.last_sequence = frame.sequence();
        let ghost view = frame@;
        proof {
            law_reported_area_fits_the_frame(self.detector@, view);
            let width = view.layout.width() as nat;
            let height = view.layout.height() as nat;
            assert(width * height <= u64::MAX) by (nonlinear_arith)
                requires
                    width <= 0xffff_ffff,
                    height <= 0xffff_ffff,
            ;
        }
        let mut detector = DirtyRegionDetector::default();
        std::mem::swap(&mut detector, &mut self.detector);
        let detected = detector.detect(frame);
        self.detector = detector;
        let rects = detected?;
        let dirty = DirtyRegions { rects };
        if !self.features.desktop_optimizations {
            return Ok((dirty, None));
        }
        match &frame.metadata().cursor {
            None => Ok((dirty, None)),
            Some(cursor) => {
                let known = match &self.last_cursor {
                    Some(last) => same_cursor(last, cursor),
                    None => false,
                };
                if known {
                    return Ok((dirty, None));
                }
                let sequence: u64 = self.cursor_sequence;
                let message = cursor_to_message(sequence, cursor);
                self.cursor_sequence = next_after(sequence);
                let bytes = message.encode()?;
                let encoded_bytes: u64 = bytes.len() as u64;
                Ok(
                    (
                        dirty,
                        Some(
                            EncodedFrame {
                                message,
                                sequence,
                                encoded_bytes,
                                reliable_barrier: false,
                            },
                        ),
                    ),
                )
            },
        }
    }

    /// The viewer was told the cursor of a frame.
    pub fn cursor_sent(&mut self, frame: &VideoFrame)
        ensures
            final(self)@ == old(self)@.after_cursor(frame@),
    {
        proof {
            use_type_invariant(&*self);
        }
        match &frame.metadata().cursor {
            Some(cursor) => {
                self.last_cursor = Some(copy_cursor(cursor));
            },
            None => {},
        }
    }

    /// What has to happen to the encoder before the next frame. The request for a keyframe is
    /// taken: whatever happens to the encoder, its next packet is one.
    pub fn plan(&mut self, control: &mut StreamControl) -> (action: EncoderAction)
        ensures
            action == old(self)@.encoder_action(old(control)@),
            final(self)@ == old(self)@.after_plan(old(control)@),
            final(control)@ == (ControlView { keyframe_requested: false, ..old(control)@ }),
    {
        proof {
            use_type_invariant(&*self);
        }
        let bitrate: u32 = control.target_bitrate();
        let fps: u32 = control.target_fps();
        let requested = control.take_keyframe_request();
        if bitrate != self.bitrate || fps != self.fps {
            self.bitrate = bitrate;
            self.fps = fps;
            EncoderAction::Recreate { bitrate, fps }
        } else if requested {
            EncoderAction::ForceKeyframe
        } else {
            EncoderAction::Keep
        }
    }

    fn is_refresh_due(&self, now: Duration) -> (due: bool)
        ensures
            due == self@.refresh_due(now),
    {
        match self.full_frame_at {
            None => true,
            Some(at) => now.saturating_sub(at).nanos >= FULL_FRAME_REFRESH_INTERVAL,
        }
    }

    /// Decides what becomes of a frame. `full` tells whether a full frame is owed.
    pub fn decide(
        &mut self,
        frame: &VideoFrame,
        dirty: &DirtyRegions,
        full: bool,
        now: Duration,
    ) -> (result: Result<FrameAction, DcError>)
        ensures
            match result {
                Ok(action) => {
                    &&& old(self)@.choice(frame@, dirty@, full, now) == Ok::<
                        FrameActionView,
                        DcErrorView,
                    >(action@)
                    &&& action@ is Region ==> fits_memory(frame@, dirty@)
                    &&& final(self)@ == old(self)@.after_choice(action@)
                },
                Err(error) => {
                    &&& old(self)@.choice(frame@, dirty@, full, now) == Err::<
                        FrameActionView,
                        DcErrorView,
                    >(error@)
                    &&& final(self)@ == old(self)@
                },
            },
    {
        proof {
            use_type_invariant(&*self);
        }
        let due = self.is_refresh_due(now);
        let rects = dirty.rects();
        let size = frame.layout().size();
        let width: u128 = size.width() as u128;
        let height: u128 = size.height() as u128;
        assert(width * height <= 0xffff_ffff_ffff_ffff) by (nonlinear_arith)
            requires
                width <= 0xffff_ffff,
                height <= 0xffff_ffff,
        ;
        let area: u128 = width * height;
        let changed: u128 = changed_area(rects) as u128 * 100;
        let allowed: u128 = area * REGION_UPDATE_MAX_AREA_PERCENT as u128;
        let limit: u128 = u64::MAX as u128;
        let small = (if changed < limit {
            changed
        } else {
            limit
        }) <= (if allowed < limit {
            allowed
        } else {
            limit
        });
        if self.features.desktop_optimizations && !full && rects.len() > 0 && !due && small {
            let message = encode_region_update(frame, rects, self.media_sequence)?;
            let bytes = message.encode()?;
            if bytes.len() <= REGION_UPDATE_MAX_BYTES {
                let sequence: u64 = self.media_sequence;
                self.media_sequence = next_after(sequence);
                return Ok(
                    FrameAction::Region(
                        EncodedFrame {
                            message,
                            sequence,
                            encoded_bytes: bytes.len() as u64,
                            reliable_barrier: false,
                        },
                    ),
                );
            }
            return Ok(FrameAction::Encode);
        }
        if rects.len() == 0 && !full && !due {
            Ok(FrameAction::Skip)
        } else {
            Ok(FrameAction::Encode)
        }
    }

    /// Numbers a packet and makes the message that carries it. A keyframe that the viewer has to
    /// acknowledge holds up everything behind it from here on.
    pub fn on_packet(
        &mut self,
        packet: EncodedVideoPacket,
        full: bool,
        now: Duration,
        control: &mut StreamControl,
    ) -> (result: Result<EncodedFrame, DcError>)
        ensures
            final(self)@ == old(self)@.after_packet(now),
            match result {
                Ok(frame) => {
                    &&& packet_failure(old(self)@.numbered(packet@)) is None
                    &&& frame@ == old(self)@.queued(packet@, full)
                    &&& final(control)@ == old(self)@.holds_up(frame@, old(control)@)
                },
                Err(error) => {
                    &&& packet_failure(old(self)@.numbered(packet@)) == Some(error@)
                    &&& final(control)@ == old(control)@
                },
            },
    {
        proof {
            use_type_invariant(&*self);
        }
        let sequence: u64 = self.media_sequence;
        let packet = packet.with_sequence(sequence);
        self.media_sequence = next_after(sequence);
        self.full_frame_at = Some(now);
        let reliable_barrier = packet.is_keyframe() && (sequence == 0 || full);
        let encoded_bytes: u64 = packet.data().len() as u64;
        let message = packet_to_message(&packet)?;
        if reliable_barrier && self.features.hybrid_video {
            control.await_keyframe();
        }
        Ok(EncodedFrame { message, sequence, encoded_bytes, reliable_barrier })
    }

    /// Whether a frame waits for a place in the queue instead of being dropped.
    pub fn waits_for_queue(&self, frame: &EncodedFrame) -> (waits: bool)
        ensures
            waits == (frame.reliable_barrier && self@.features.hybrid_video),
    {
        frame.reliable_barrier && self.features.hybrid_video
    }

    /// A frame has been dealt with.
    pub fn finish(&mut self, frame: VideoFrame)
        ensures
            final(self)@ == old(self)@.finished(frame@),
    {
        proof {
            use_type_invariant(&*self);
        }
        self.last_frame = Some(frame);
    }

    /// For how long to sleep until the next frame is due. A producer that is late starts afresh.
    pub fn pace(&mut self, now: Duration) -> (sleep: Duration)
        ensures
            (final(self)@, sleep) == old(self)@.paced(now),
    {
        proof {
            use_type_invariant(&*self);
        }
        let next = self.next_frame_at.saturating_add(self.frame_interval());
        self.next_frame_at = if now.nanos < next.nanos {
            next
        } else {
            now
        };
        next.saturating_sub(now)
    }

    /// The time between two frames.
    pub fn frame_interval(&self) -> (interval: Duration)
        ensures
            interval == self@.interval(),
    {
        proof {
            use_type_invariant(self);
        }
        frame_interval(self.fps)
    }

    /// What happens when nothing could be captured. A requested keyframe or an overdue refresh is
    /// made from the last frame, with a later timestamp so that encoders do not take it for a
    /// duplicate.
    pub fn on_timeout(&self, control: &StreamControl, now: Duration) -> (result: Result<
        TimeoutAction,
        DcError,
    >)
        ensures
            match result {
                Ok(action) => self@.on_timeout(control@, now) == Ok::<
                    TimeoutActionView,
                    DcErrorView,
                >(action@),
                Err(error) => self@.on_timeout(control@, now) == Err::<
                    TimeoutActionView,
                    DcErrorView,
                >(error@),
            },
    {
        if control.is_shut_down() {
            return Ok(TimeoutAction::Stop);
        }
        let sequence: u64 = next_after(self.last_sequence);
        if control.keyframe_requested() {
            return match &self.last_frame {
                None => Err(
                    DcError::platform("keyframe requested before a recoverable frame existed"),
                ),
                Some(frame) => {
                    let frame = repeat_frame(frame, sequence, self.frame_interval())?;
                    Ok(TimeoutAction::Resend(frame))
                },
            };
        }
        if self.features.desktop_optimizations && self.is_refresh_due(now) {
            if let Some(frame) = &self.last_frame {
                let step = Duration { nanos: FULL_FRAME_REFRESH_INTERVAL };
                let frame = repeat_frame(frame, sequence, step)?;
                return Ok(TimeoutAction::Resend(frame));
            }
        }
        Ok(TimeoutAction::Wait)
    }
}

} // verus!
