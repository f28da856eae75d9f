//! The viewer: what becomes of each received message, and what the viewer asks of the host.
//!
//! The program around the library receives, decodes and presents; [`ViewerStream`] decides what is
//! decoded and presented, and which messages go back. Times are lengths of time since the stream
//! was started.
use crate::auth::Permissions;
use crate::desktop::convert::{carries, message_failure, message_to_packet_ref};
use crate::desktop::datagram::media_sequence_of;
use crate::desktop::region::{decode_region_payload, region_payload};
use crate::error::{DcError, DcErrorView};
use crate::media::packet::EncodedVideoPacket;
use crate::protocol::types::MessageView;
use crate::protocol::WireMessage;
use crate::stream::frames::{is_keyframe_message, keyframe_message, video_sequence};
use crate::stream::host::MediaFeatures;
use crate::stream::profile::{
    increase_stream_rate, increased, reduce_stream_rate, reduced, RateProfile,
};
use crate::time::Duration;
use vstd::prelude::*;

verus! {

/// How long a stream has to be stable before its rates are raised, in nanoseconds.
pub const RATE_UPGRADE_INTERVAL: u128 = 5_000_000_000;

/// How many frames in a row have to arrive before the rates are raised.
pub const RATE_UPGRADE_MIN_INTER_FRAMES: u32 = 8;

/// The time that passes between two requests for a keyframe, in nanoseconds.
pub const KEYFRAME_REQUEST_INTERVAL: u128 = 1_000_000_000;

/// How long incomplete frames are waited for, in nanoseconds.
pub const STALLED_FRAME_INTERVAL: u128 = 2_000_000_000;

/// What becomes of a received message.
pub enum ViewerAction {
    /// The cursor is drawn anew.
    Cursor,
    /// Nothing: a later message was there before.
    Ignore,
    /// These pixels are written to the regions of the message.
    ApplyRegions { payload: Vec<u8> },
    /// Nothing: it depends on a keyframe that is missing. The request that is sent, if any.
    Withhold { request: Option<WireMessage> },
    /// The packet is decoded, by a new decoder if the old one has seen damaged pictures.
    Decode { packet: EncodedVideoPacket, reset: bool },
}

/// What becomes of a received message.
pub enum ViewerChoice {
    Cursor,
    Ignore,
    ApplyRegions { payload: Seq<u8> },
    Withhold { request: Option<MessageView> },
    Decode { reset: bool },
}

/// What a message that may be absent says.
pub open spec fn request_view(request: Option<WireMessage>) -> Option<MessageView> {
    match request {
        Some(message) => Some(message@),
        None => None,
    }
}

/// Whether an action is the chosen one; a packet is the one that the message carries.
pub open spec fn follows(action: ViewerAction, choice: ViewerChoice, message: MessageView) -> bool {
    match action {
        ViewerAction::Cursor => choice is Cursor,
        ViewerAction::Ignore => choice is Ignore,
        ViewerAction::ApplyRegions { payload } => choice == ViewerChoice::ApplyRegions {
            payload: payload@,
        },
        ViewerAction::Withhold { request } => choice == ViewerChoice::Withhold {
            request: request_view(request),
        },
        ViewerAction::Decode { packet, reset } => choice == ViewerChoice::Decode { reset }
            && carries(message, packet@),
    }
}

/// The state of a [`ViewerStream`].
pub struct ViewerView {
    pub features: MediaFeatures,
    pub profile: RateProfile,
    /// The number of the last picture or region update that was presented.
    pub last_sequence: Option<u64>,
    pub last_keyframe_request: Option<Duration>,
    /// When the last media message arrived, and how many datagrams had arrived by then.
    pub last_frame_progress: Duration,
    pub datagrams_at_last_frame: u64,
    /// The rates that were asked for.
    pub requested_bitrate: u32,
    pub requested_fps: u16,
    /// For how many frames and since when nothing was lost.
    pub stable_inter_frames: u32,
    pub stable_since: Duration,
    /// Whether only a keyframe can be decoded.
    pub waiting_for_keyframe: bool,
    pub desktop_size: Option<(u32, u32)>,
    /// How many messages were missing before those that arrived, since the last report.
    pub lost: u64,
}

/// A count that stays at its largest value.
pub open spec fn counted_up(count: u32) -> u32 {
    if count == u32::MAX {
        count
    } else {
        (count + 1) as u32
    }
}

/// The number in a request for a keyframe.
pub open spec fn number_or_zero(sequence: Option<u64>) -> u64 {
    match sequence {
        Some(number) => number,
        None => 0,
    }
}

impl ViewerView {
    /// How many datagrams came since the last frame was complete.
    pub open spec fn datagrams_since(self, datagrams: u64) -> int {
        if datagrams < self.datagrams_at_last_frame {
            0
        } else {
            datagrams - self.datagrams_at_last_frame
        }
    }

    /// A viewer that has received nothing.
    pub open spec fn initial(features: MediaFeatures, profile: RateProfile, now: Duration) -> (
        ViewerView
    ) {
        ViewerView {
            features,
            profile,
            last_sequence: None,
            last_keyframe_request: None,
            last_frame_progress: now,
            datagrams_at_last_frame: 0,
            requested_bitrate: profile.initial_bitrate,
            requested_fps: profile.initial_fps as u16,
            stable_inter_frames: 0,
            stable_since: now,
            waiting_for_keyframe: true,
            desktop_size: None,
            lost: 0,
        }
    }

    /// The message that asks for the wanted rates.
    pub open spec fn rate_hint(self) -> MessageView {
        MessageView::RateHint {
            bitrate: self.requested_bitrate,
            frames_per_second: self.requested_fps,
        }
    }

    /// Whether a keyframe may be asked for again.
    pub open spec fn request_due(self, now: Duration) -> bool {
        match self.last_keyframe_request {
            None => true,
            Some(at) => now.minus(at).nanos >= KEYFRAME_REQUEST_INTERVAL,
        }
    }

    /// The request for a keyframe behind a message, if one may be sent.
    pub open spec fn request(self, sequence: Option<u64>, now: Duration) -> Option<MessageView> {
        if self.request_due(now) {
            Some(MessageView::KeyframeRequest { last_sequence: number_or_zero(sequence) })
        } else {
            None
        }
    }

    /// After a request for a keyframe, if one may be sent.
    pub open spec fn requested(self, now: Duration) -> ViewerView {
        if self.request_due(now) {
            ViewerView { last_keyframe_request: Some(now), ..self }
        } else {
            self
        }
    }

    /// After a media message arrived.
    pub open spec fn progressed(self, now: Duration, datagrams: u64) -> ViewerView {
        ViewerView { last_frame_progress: now, datagrams_at_last_frame: datagrams, ..self }
    }

    /// After the stream turned out to be unstable.
    pub open spec fn unsettled(self, now: Duration) -> ViewerView {
        ViewerView { stable_inter_frames: 0, stable_since: now, ..self }
    }

    /// Whether a message comes too late: something at least as new was presented.
    pub open spec fn outdated(self, message: MessageView) -> bool {
        match (self.last_sequence, media_sequence_of(message)) {
            (Some(previous), Some(current)) => current <= previous,
            _ => false,
        }
    }

    /// Whether messages before this one are missing.
    pub open spec fn has_gap(self, message: MessageView) -> bool {
        match (self.last_sequence, media_sequence_of(message)) {
            (Some(previous), Some(current)) => current > previous + 1,
            _ => false,
        }
    }

    /// How many messages before this one are missing.
    pub open spec fn missing(self, message: MessageView) -> nat {
        if self.has_gap(message) {
            (media_sequence_of(message)->Some_0 - self.last_sequence->Some_0 - 1) as nat
        } else {
            0
        }
    }

    /// After a picture or a region update arrived, before it is used. The messages that are
    /// missing before it are counted; the count stays at its largest value.
    pub open spec fn arrived(self, message: MessageView, now: Duration) -> ViewerView {
        let counted = ViewerView {
            lost: if self.lost + self.missing(message) > u64::MAX {
                u64::MAX
            } else {
                (self.lost + self.missing(message)) as u64
            },
            ..self
        };
        if self.has_gap(message) && !keyframe_message(message) {
            counted.unsettled(now)
        } else {
            counted
        }
    }

    /// What becomes of a region update, and the viewer afterwards.
    pub open spec fn after_regions(self, message: MessageView) -> (
        ViewerView,
        Result<ViewerChoice, DcErrorView>,
    ) {
        if !self.features.desktop_optimizations {
            (
                self,
                Err(DcErrorView::Codec("Host sent an unnegotiated desktop region update"@)),
            )
        } else {
            match region_payload(message) {
                Err(error) => (self, Err(error)),
                Ok(payload) => (
                    ViewerView {
                        last_sequence: media_sequence_of(message),
                        stable_inter_frames: counted_up(self.stable_inter_frames),
                        ..self
                    },
                    Ok(ViewerChoice::ApplyRegions { payload }),
                ),
            }
        }
    }

    /// What becomes of a picture, and the viewer afterwards. `gap` tells whether messages before
    /// it are missing.
    pub open spec fn after_picture(self, message: MessageView, gap: bool, now: Duration) -> (
        ViewerView,
        Result<ViewerChoice, DcErrorView>,
    ) {
        match message {
            MessageView::Video { sequence, keyframe, width, height, .. } => {
                if message_failure(message) is Some {
                    (self, Err(message_failure(message)->Some_0))
                } else {
                    let shown = ViewerView {
                        desktop_size: Some((width, height)),
                        waiting_for_keyframe: self.waiting_for_keyframe || gap,
                        ..self
                    };
                    if shown.waiting_for_keyframe && !keyframe {
                        (
                            shown.requested(now),
                            Ok(ViewerChoice::Withhold { request: shown.request(Some(sequence), now) }),
                        )
                    } else {
                        (shown, Ok(ViewerChoice::Decode { reset: shown.waiting_for_keyframe }))
                    }
                }
            },
            _ => (self, Err(DcErrorView::InvalidInput("expected video message"@))),
        }
    }

    /// What becomes of a message, and the viewer afterwards. `datagrams` is the number of
    /// datagrams that have arrived so far.
    pub open spec fn after(self, message: MessageView, now: Duration, datagrams: u64) -> (
        ViewerView,
        Result<ViewerChoice, DcErrorView>,
    ) {
        let progressed = self.progressed(now, datagrams);
        if message is Cursor {
            if self.features.desktop_optimizations {
                (self, Ok(ViewerChoice::Cursor))
            } else {
                (self, Err(DcErrorView::Codec("Host sent an unnegotiated cursor update"@)))
            }
        } else if self.outdated(message) {
            (progressed, Ok(ViewerChoice::Ignore))
        } else {
            let arrived = progressed.arrived(message, now);
            if message is DesktopUpdate {
                arrived.after_regions(message)
            } else {
                arrived.after_picture(message, self.has_gap(message), now)
            }
        }
    }

    /// After a picture was presented.
    pub open spec fn presented(self, sequence: u64, keyframe: bool, now: Duration) -> ViewerView {
        let shown = ViewerView {
            waiting_for_keyframe: false,
            last_sequence: Some(sequence),
            ..self
        };
        if keyframe {
            shown.unsettled(now)
        } else {
            ViewerView { stable_inter_frames: counted_up(shown.stable_inter_frames), ..shown }
        }
    }

    /// What a host is told after a picture was presented: one that sends keyframes reliably waits
    /// for the word that its keyframe is shown.
    pub open spec fn acknowledgement(self, sequence: u64, keyframe: bool) -> Option<MessageView> {
        if keyframe && self.features.hybrid_video {
            Some(MessageView::KeyframeAck { sequence })
        } else {
            None
        }
    }

    /// After a picture could not be decoded.
    pub open spec fn failed(self, now: Duration) -> ViewerView {
        ViewerView { waiting_for_keyframe: true, ..self.requested(now) }
    }

    /// Whether frames are being lost: datagrams arrive, but no complete frame for some time.
    pub open spec fn stalled(self, now: Duration, datagrams: u64) -> bool {
        &&& now.minus(self.last_frame_progress).nanos >= STALLED_FRAME_INTERVAL
        &&& datagrams > self.datagrams_at_last_frame
        &&& self.request_due(now)
    }

    /// After lower rates and a keyframe were asked for.
    pub open spec fn slowed(self, now: Duration, datagrams: u64) -> ViewerView {
        let (bitrate, fps) = reduced(
            self.requested_bitrate,
            self.requested_fps,
            self.profile.min_bitrate,
            self.profile.min_fps,
        );
        ViewerView {
            requested_bitrate: bitrate,
            requested_fps: fps,
            last_keyframe_request: Some(now),
            ..self.progressed(now, datagrams).unsettled(now)
        }
    }

    /// Whether the stream has been stable for long enough to raise its rates.
    pub open spec fn steady(self, now: Duration) -> bool {
        &&& self.stable_inter_frames >= RATE_UPGRADE_MIN_INTER_FRAMES
        &&& now.minus(self.stable_since).nanos >= RATE_UPGRADE_INTERVAL
        &&& self.requested_bitrate < self.profile.max_bitrate || self.requested_fps
            < self.profile.max_fps
    }

    /// After higher rates were asked for.
    pub open spec fn raised(self, now: Duration) -> ViewerView {
        let (bitrate, fps) = increased(
            self.requested_bitrate,
            self.requested_fps,
            self.profile.max_bitrate,
            self.profile.max_fps,
        );
        ViewerView { requested_bitrate: bitrate, requested_fps: fps, ..self.unsettled(now) }
    }

    /// The viewer after it looked for a stall, and what it then asks of the host: lower rates, and a
    /// keyframe behind the last frame that it has shown.
    pub open spec fn watched(self, now: Duration, datagrams: u64) -> (
        ViewerView,
        Option<(MessageView, MessageView)>,
    ) {
        if self.stalled(now, datagrams) {
            (
                self.slowed(now, datagrams),
                Some(
                    (
                        self.slowed(now, datagrams).rate_hint(),
                        MessageView::KeyframeRequest {
                            last_sequence: number_or_zero(self.last_sequence),
                        },
                    ),
                ),
            )
        } else {
            (self, None)
        }
    }

    /// The viewer after it looked whether more can be asked for, and what it then asks for.
    pub open spec fn upgraded(self, now: Duration) -> (ViewerView, Option<MessageView>) {
        if self.steady(now) {
            (self.raised(now), Some(self.raised(now).rate_hint()))
        } else {
            (self, None)
        }
    }

    /// The requested rates lie inside the bounds of the profile.
    pub open spec fn in_bounds(self) -> bool {
        &&& self.profile.wf()
        &&& self.profile.min_bitrate <= self.requested_bitrate <= self.profile.max_bitrate
        &&& self.profile.min_fps <= self.requested_fps <= self.profile.max_fps
    }
}

/// Decides what becomes of received messages.
#[derive(Debug)]
pub struct ViewerStream {
    features: MediaFeatures,
    profile: RateProfile,
    last_sequence: Option<u64>,
    last_keyframe_request: Option<Duration>,
    last_frame_progress: Duration,
    datagrams_at_last_frame: u64,
    requested_bitrate: u32,
    requested_fps: u16,
    stable_inter_frames: u32,
    stable_since: Duration,
    waiting_for_keyframe: bool,
    desktop_size: Option<(u32, u32)>,
    lost: u64,
}

impl View for ViewerStream {
    type V = ViewerView;

    closed spec fn view(&self) -> ViewerView {
        ViewerView {
            features: self.features,
            profile: self.profile,
            last_sequence: self.last_sequence,
            last_keyframe_request: self.last_keyframe_request,
            last_frame_progress: self.last_frame_progress,
            datagrams_at_last_frame: self.datagrams_at_last_frame,
            requested_bitrate: self.requested_bitrate,
            requested_fps: self.requested_fps,
            stable_inter_frames: self.stable_inter_frames,
            stable_since: self.stable_since,
            waiting_for_keyframe: self.waiting_for_keyframe,
            desktop_size: self.desktop_size,
            lost: self.lost,
        }
    }
}

fn count_up(count: u32) -> (next: u32)
    ensures
        next == counted_up(count),
{
    if count == u32::MAX {
        count
    } else {
        count + 1
    }
}

impl ViewerStream {
    /// A viewer that has received nothing. The bounds of its profile are put in order first.
    pub fn new(features: MediaFeatures, profile: RateProfile, now: Duration) -> (viewer:
        ViewerStream)
        ensures
            viewer@ == ViewerView::initial(features, profile.settled(), now),
            profile.wf() ==> viewer@ == ViewerView::initial(features, profile, now),
            viewer@.in_bounds(),
    {
        let profile = profile.settle();
        ViewerStream {
            features,
            profile,
            last_sequence: None,
            last_keyframe_request: None,
            last_frame_progress: now,
            datagrams_at_last_frame: 0,
            requested_bitrate: profile.initial_bitrate,
            requested_fps: profile.initial_fps as u16,
            stable_inter_frames: 0,
            stable_since: now,
            waiting_for_keyframe: true,
            desktop_size: None,
            lost: 0,
        }
    }

    /// The message that asks for the wanted rates. It is also sent at the start, so that a host
    /// does not begin with the rates of an earlier session.
    pub fn rate_hint(&self) -> (message: WireMessage)
        ensures
            message@ == self@.rate_hint(),
    {
        WireMessage::RateHint {
            bitrate: self.requested_bitrate,
            frames_per_second: self.requested_fps,
        }
    }

    /// The size of the remote desktop, once it is known.
    pub fn desktop_size(&self) -> (size: Option<(u32, u32)>)
        ensures
            size == self@.desktop_size,
    {
        self.desktop_size
    }

    /// The number of the last picture or region update that was presented.
    pub fn last_sequence(&self) -> (sequence: Option<u64>)
        ensures
            sequence == self@.last_sequence,
    {
        self.last_sequence
    }

    /// How many datagrams have arrived since the last complete frame.
    pub fn incomplete_datagrams(&self, datagrams: u64) -> (count: u64)
        ensures
            count == (if datagrams < self@.datagrams_at_last_frame {
                0
            } else {
                datagrams - self@.datagrams_at_last_frame
            }),
            count == self@.datagrams_since(datagrams),
    {
        datagrams.saturating_sub(self.datagrams_at_last_frame)
    }

    /// How many messages were missing since this was asked last.
    pub fn take_lost(&mut self) -> (count: u64)
        ensures
            count == old(self)@.lost,
            final(self)@ == (ViewerView { lost: 0, ..old(self)@ }),
    {
        let count: u64 = self.lost;
        self.lost = 0;
        count
    }

    fn request(&mut self, sequence: Option<u64>, now: Duration) -> (request: Option<WireMessage>)
        ensures
            request_view(request) == old(self)@.request(sequence, now),
            final(self)@ == old(self)@.requested(now),
    {
        let due = match self.last_keyframe_request {
            None => true,
            Some(at) => now.saturating_sub(at).nanos >= KEYFRAME_REQUEST_INTERVAL,
        };
        if !due {
            return None;
        }
        self.last_keyframe_request = Some(now);
        let last_sequence: u64 = match sequence {
            Some(number) => number,
            None => 0,
        };
        Some(WireMessage::KeyframeRequest { last_sequence })
    }

    /// Takes a message. `datagrams` is the number of datagrams that have arrived so far. A gap
    /// before a picture makes the viewer wait for a keyframe; a gap before a region update only
    /// ends the count of stable frames. The messages that are missing in a gap are counted.
    pub fn on_message(&mut self, message: &WireMessage, now: Duration, datagrams: u64) -> (result:
        Result<ViewerAction, DcError>)
        ensures
            final(self)@ == old(self)@.after(message@, now, datagrams).0,
            match old(self)@.after(message@, now, datagrams).1 {
                Ok(choice) => result matches Ok(action) && follows(action, choice, message@),
                Err(error) => result matches Err(e) && e@ == error,
            },
    {
        if let WireMessage::Cursor { .. } = message {
            if !self.features.desktop_optimizations {
                return Err(DcError::codec("Host sent an unnegotiated cursor update"));
            }
            return Ok(ViewerAction::Cursor);
        }
        self.last_frame_progress = now;
        self.datagrams_at_last_frame = datagrams;
        let sequence = video_sequence(message);
        let mut gap = false;
        if let (Some(previous), Some(current)) = (self.last_sequence, sequence) {
            if current <= previous {
                return Ok(ViewerAction::Ignore);
            }
            gap = current - previous > 1;
            self.lost = self.lost.saturating_add(current - previous - 1);
        }
        if gap && !is_keyframe_message(message) {
            self.stable_inter_frames = 0;
            self.stable_since = now;
        }
        if let WireMessage::DesktopUpdate { .. } = message {
            return self.take_regions(message, sequence);
        }
        self.take_picture(message, gap, now)
    }

    fn take_regions(&mut self, message: &WireMessage, sequence: Option<u64>) -> (result: Result<
        ViewerAction,
        DcError,
    >)
        requires
            sequence == media_sequence_of(message@),
        ensures
            final(self)@ == old(self)@.after_regions(message@).0,
            match old(self)@.after_regions(message@).1 {
                Ok(choice) => result matches Ok(action) && follows(action, choice, message@),
                Err(error) => result matches Err(e) && e@ == error,
            },
    {
        if !self.features.desktop_optimizations {
            return Err(DcError::codec("Host sent an unnegotiated desktop region update"));
        }
        let payload = decode_region_payload(message)?;
        self.last_sequence = sequence;
        self.stable_inter_frames = count_up(self.stable_inter_frames);
        Ok(ViewerAction::ApplyRegions { payload })
    }

    fn take_picture(&mut self, message: &WireMessage, gap: bool, now: Duration) -> (result: Result<
        ViewerAction,
        DcError,
    >)
        ensures
            final(self)@ == old(self)@.after_picture(message@, gap, now).0,
            match old(self)@.after_picture(message@, gap, now).1 {
                Ok(choice) => result matches Ok(action) && follows(action, choice, message@),
                Err(error) => result matches Err(e) && e@ == error,
            },
    {
        let packet = message_to_packet_ref(message)?;
        let size = packet.source_layout().size();
        self.desktop_size = Some((size.width(), size.height()));
        if gap {
            self.waiting_for_keyframe = true;
        }
        if self.waiting_for_keyframe && !packet.is_keyframe() {
            let request = self.request(Some(packet.sequence()), now);
            return Ok(ViewerAction::Withhold { request });
        }
        Ok(ViewerAction::Decode { packet, reset: self.waiting_for_keyframe })
    }

    /// A picture was decoded and presented. A host that sends keyframes reliably is told that it
    /// may go on.
    pub fn on_presented(&mut self, sequence: u64, keyframe: bool, now: Duration) -> (answer: Option<
        WireMessage,
    >)
        ensures
            final(self)@ == old(self)@.presented(sequence, keyframe, now),
            request_view(answer) == old(self)@.acknowledgement(sequence, keyframe),
    {
        self.waiting_for_keyframe = false;
        self.last_sequence = Some(sequence);
        if keyframe {
            self.stable_inter_frames = 0;
            self.stable_since = now;
        } else {
            self.stable_inter_frames = count_up(self.stable_inter_frames);
        }
        if keyframe && self.features.hybrid_video {
            Some(WireMessage::KeyframeAck { sequence })
        } else {
            None
        }
    }

    /// A picture could not be decoded: only a keyframe helps.
    pub fn on_decode_failure(&mut self, sequence: u64, now: Duration) -> (request: Option<
        WireMessage,
    >)
        ensures
            request_view(request) == old(self)@.request(Some(sequence), now),
            final(self)@ == old(self)@.failed(now),
    {
        self.waiting_for_keyframe = true;
        self.request(Some(sequence), now)
    }

    /// Looks after a stream that has stalled: datagrams arrive, but no complete frame. Lower rates
    /// and a keyframe are asked for, in this order. A stream without datagrams is a desktop
    /// without changes.
    pub fn watch(&mut self, now: Duration, datagrams: u64) -> (requests: Option<
        (WireMessage, WireMessage),
    >)
        ensures
            final(self)@ == old(self)@.watched(now, datagrams).0,
            match old(self)@.watched(now, datagrams).1 {
                Some((first, second)) => requests matches Some((hint, request)) && hint@ == first
                    && request@ == second,
                None => requests is None,
            },
    {
        if now.saturating_sub(self.last_frame_progress).nanos < STALLED_FRAME_INTERVAL || datagrams
            <= self.datagrams_at_last_frame {
            return None;
        }
        match self.request(self.last_sequence, now) {
            None => None,
            Some(request) => {
                let rates = reduce_stream_rate(
                    self.requested_bitrate,
                    self.requested_fps,
                    self.profile.min_bitrate,
                    self.profile.min_fps,
                );
                self.requested_bitrate = rates.0;
                self.requested_fps = rates.1;
                self.last_frame_progress = now;
                self.datagrams_at_last_frame = datagrams;
                self.stable_inter_frames = 0;
                self.stable_since = now;
                Some((self.rate_hint(), request))
            },
        }
    }

    /// Asks for higher rates once the stream has been stable for long enough.
    pub fn upgrade(&mut self, now: Duration) -> (hint: Option<WireMessage>)
        ensures
            final(self)@ == old(self)@.upgraded(now).0,
            request_view(hint) == old(self)@.upgraded(now).1,
    {
        if self.stable_inter_frames < RATE_UPGRADE_MIN_INTER_FRAMES || now.saturating_sub(
            self.stable_since,
        ).nanos < RATE_UPGRADE_INTERVAL {
            return None;
        }
        if self.requested_bitrate >= self.profile.max_bitrate && self.requested_fps as u32
            >= self.profile.max_fps {
            return None;
        }
        let rates = increase_stream_rate(
            self.requested_bitrate,
            self.requested_fps,
            self.profile.max_bitrate,
            self.profile.max_fps,
        );
        self.requested_bitrate = rates.0;
        self.requested_fps = rates.1;
        self.stable_inter_frames = 0;
        self.stable_since = now;
        Some(self.rate_hint())
    }
}

/// Why a session cannot show the desktop.
pub open spec fn viewing_refusal(permissions: Permissions) -> Option<DcErrorView> {
    if permissions.view_desktop {
        None
    } else {
        Some(DcErrorView::Unsupported("desktop viewing is not permitted"@))
    }
}

/// Why a path cannot carry the stream.
pub open spec fn datagram_refusal(max_datagram_size: Option<usize>) -> Option<DcErrorView> {
    if max_datagram_size is Some {
        None
    } else {
        Some(
            DcErrorView::Unsupported(
                "peer does not support QUIC DATAGRAM video; update the Host and reconnect"@,
            ),
        )
    }
}

/// Accepts a session in which the desktop may be viewed.
pub fn check_view_permission(permissions: Permissions) -> (result: Result<(), DcError>)
    ensures
        result is Ok <==> viewing_refusal(permissions) is None,
        result matches Err(error) ==> viewing_refusal(permissions) == Some(error@),
        match result {
            Ok(_) => permissions.view_desktop,
            Err(error) => !permissions.view_desktop && error@ == DcErrorView::Unsupported(
                "desktop viewing is not permitted"@,
            ),
        },
{
    if !permissions.view_desktop {
        return Err(DcError::unsupported("desktop viewing is not permitted"));
    }
    Ok(())
}

/// Accepts a path that carries datagrams.
pub fn check_datagram_support(max_datagram_size: Option<usize>) -> (result: Result<usize, DcError>)
    ensures
        result is Ok <==> datagram_refusal(max_datagram_size) is None,
        result matches Err(error) ==> datagram_refusal(max_datagram_size) == Some(error@),
        match result {
            Ok(size) => max_datagram_size == Some(size),
            Err(error) => max_datagram_size is None && error@ == DcErrorView::Unsupported(
                "peer does not support QUIC DATAGRAM video; update the Host and reconnect"@,
            ),
        },
{
    match max_datagram_size {
        Some(size) => Ok(size),
        None => Err(
            DcError::unsupported(
                "peer does not support QUIC DATAGRAM video; update the Host and reconnect",
            ),
        ),
    }
}

} // verus!
