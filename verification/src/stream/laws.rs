//! What holds of the stream as a whole.
use crate::desktop::datagram::media_sequence_of;
use crate::desktop::dirty::{law_unchanged_frame_reports_nothing, SeenFrame};
use crate::desktop::region::{
    fits_memory, law_update_carries_the_pixels, rects_pixels, region_payload,
};
use crate::error::DcErrorView;
use crate::media::frame::{DamageRect, FrameView};
use crate::media::packet::PacketView;
use crate::protocol::types::MessageView;
use crate::stream::control::ControlView;
use crate::stream::dispatch::{
    controlled, fragments_of, sending, SendActionView, MAX_DATAGRAM_FRAGMENTS_PER_FRAME,
};
use crate::stream::frames::keyframe_message;
use crate::stream::host::{
    EncodedView, FrameActionView, MediaFeatures, ProducerView, FULL_FRAME_REFRESH_INTERVAL,
};
use crate::stream::profile::RateProfile;
use crate::stream::viewer::{ViewerChoice, ViewerView, KEYFRAME_REQUEST_INTERVAL};
use crate::time::Duration;
use vstd::prelude::*;

verus! {

/// An unchanged frame is neither encoded nor sent while no full frame is owed.
pub proof fn law_unchanged_frame_is_left_out(producer: ProducerView, frame: FrameView, now: Duration)
    requires
        frame.facts(),
        producer.seen == SeenFrame::of(frame),
        !producer.refresh_due(now),
    ensures
        producer.choice(frame, producer.seen.reported(frame), false, now) == Ok::<
            FrameActionView,
            DcErrorView,
        >(FrameActionView::Skip),
{
    law_unchanged_frame_reports_nothing(producer.seen, frame);
}

/// A full frame that is owed, because rates changed, a keyframe was asked for or the last one is
/// too old, is encoded as a whole.
pub proof fn law_owed_frame_is_encoded(
    producer: ProducerView,
    frame: FrameView,
    dirty: Seq<DamageRect>,
    full: bool,
    now: Duration,
)
    requires
        full || producer.refresh_due(now),
    ensures
        producer.choice(frame, dirty, full, now) == Ok::<FrameActionView, DcErrorView>(
            FrameActionView::Encode,
        ),
{
}

/// What is sent instead of a frame are the pixels of its changed parts.
pub proof fn law_region_update_carries_the_pixels(
    producer: ProducerView,
    frame: FrameView,
    dirty: Seq<DamageRect>,
    now: Duration,
)
    requires
        frame.facts(),
        producer.choice(frame, dirty, false, now) matches Ok(action) && action is Region,
        fits_memory(frame, dirty),
        forall|i: int|
            0 <= i < dirty.len() ==> (#[trigger] dirty[i]).width as nat * dirty[i].height as nat * 4
                <= u32::MAX,
    ensures
        ({
            let update = producer.choice(frame, dirty, false, now)->Ok_0->Region_0;
            &&& media_sequence_of(update.message) == Some(producer.media_sequence)
            &&& region_payload(update.message) == Ok::<Seq<u8>, DcErrorView>(
                rects_pixels(frame, dirty),
            )
        }),
{
    law_update_carries_the_pixels(frame, dirty, producer.media_sequence);
}

/// A keyframe that the viewer has to acknowledge pauses capture. Further requests do not end the
/// pause, the acknowledgement does.
pub proof fn law_barrier_pauses_capture(control: ControlView, last_sequence: u64, sequence: u64)
    requires
        !control.keyframe_requested,
    ensures
        ({
            let waiting = ControlView { recovery_pending: true, ..control };
            let asked = controlled(waiting, MessageView::KeyframeRequest { last_sequence });
            let acknowledged = controlled(waiting, MessageView::KeyframeAck { sequence });
            &&& waiting.paused(true)
            &&& asked.paused(true)
            &&& !acknowledged.paused(true)
        }),
{
}

/// The first packet of a stream and every keyframe that was asked for are barriers.
pub proof fn law_requested_keyframe_is_a_barrier(
    producer: ProducerView,
    packet: PacketView,
    full: bool,
)
    requires
        packet.keyframe,
        full || producer.media_sequence == 0,
    ensures
        producer.queued(packet, full).reliable_barrier,
        keyframe_message(producer.queued(packet, full).message),
{
}

/// Where keyframes are sent reliably, no other picture is sent while one is awaited.
pub proof fn law_dependent_frames_wait(
    features: MediaFeatures,
    control: ControlView,
    frame: EncodedView,
    size: nat,
)
    requires
        features.hybrid_video,
        control.recovery_pending,
        !(frame.message is Cursor),
    ensures
        sending(features, control, frame, size) == Ok::<SendActionView, DcErrorView>(
            if keyframe_message(frame.message) {
                SendActionView::Reliable { barrier: frame.reliable_barrier }
            } else {
                SendActionView::Withhold
            },
        ),
{
}

/// Without datagrams for single units, a picture that is not a keyframe takes a bounded number
/// of datagrams.
pub proof fn law_datagrams_of_a_frame_are_bounded(
    features: MediaFeatures,
    control: ControlView,
    frame: EncodedView,
    size: nat,
)
    requires
        !features.h264_nal_datagrams,
        !keyframe_message(frame.message),
        sending(features, control, frame, size) matches Ok(action) && action is Datagrams,
    ensures
        sending(features, control, frame, size)->Ok_0->fragments.len()
            <= MAX_DATAGRAM_FRAGMENTS_PER_FRAME,
        fragments_of(features, frame.message, size) == Ok::<Seq<Seq<u8>>, DcErrorView>(
            sending(features, control, frame, size)->Ok_0->fragments,
        ),
{
}

/// A viewer to which no datagrams come asks for nothing: its desktop does not change.
pub proof fn law_static_desktop_is_not_congestion(viewer: ViewerView, now: Duration)
    ensures
        !viewer.stalled(now, viewer.datagrams_at_last_frame),
{
}

/// The rates that a viewer asks for stay inside the bounds of its profile.
pub proof fn law_viewer_rates_stay_in_bounds(viewer: ViewerView, now: Duration, datagrams: u64)
    requires
        viewer.in_bounds(),
        viewer.profile.max_fps <= u16::MAX,
    ensures
        viewer.slowed(now, datagrams).in_bounds(),
        viewer.raised(now).in_bounds(),
{
}

/// A new viewer asks for rates inside the bounds of its profile, once these are in order; and
/// bounds that are in order stay as they are.
pub proof fn law_viewer_starts_in_bounds(
    features: MediaFeatures,
    profile: RateProfile,
    now: Duration,
)
    ensures
        ViewerView::initial(features, profile.settled(), now).in_bounds(),
        profile.wf() ==> profile.settled() == profile,
{
}

/// While a viewer waits for a keyframe, and after a gap, it decodes nothing but keyframes, and
/// these with a new decoder.
pub proof fn law_only_keyframes_end_the_wait(
    viewer: ViewerView,
    message: MessageView,
    now: Duration,
    datagrams: u64,
)
    requires
        viewer.waiting_for_keyframe || viewer.has_gap(message),
        viewer.after(message, now, datagrams).1 matches Ok(choice) && choice is Decode,
    ensures
        keyframe_message(message),
        viewer.after(message, now, datagrams).1 == Ok::<ViewerChoice, DcErrorView>(
            ViewerChoice::Decode { reset: true },
        ),
{
}

/// What is decoded or applied is newer than everything that was presented before.
pub proof fn law_presented_numbers_increase(
    viewer: ViewerView,
    message: MessageView,
    now: Duration,
    datagrams: u64,
)
    requires
        viewer.after(message, now, datagrams).1 matches Ok(choice) && (choice is Decode || choice
            is ApplyRegions),
        viewer.last_sequence is Some,
    ensures
        media_sequence_of(message) matches Some(sequence) && sequence
            > viewer.last_sequence->Some_0,
{
}

/// After a request for a keyframe the next one comes only when some time has passed.
pub proof fn law_requests_are_spaced(
    viewer: ViewerView,
    sequence: Option<u64>,
    earlier: Duration,
    later: Duration,
)
    requires
        earlier.nanos <= later.nanos < earlier.nanos + KEYFRAME_REQUEST_INTERVAL,
        viewer.request(sequence, earlier) is Some,
    ensures
        viewer.requested(earlier).request(sequence, later) is None,
{
}

/// A host that waits for the acknowledgement of a keyframe goes on once the viewer has presented
/// it: the viewer answers with exactly that acknowledgement.
pub proof fn law_presented_keyframe_ends_recovery(
    viewer: ViewerView,
    control: ControlView,
    sequence: u64,
    now: Duration,
)
    ensures
        !viewer.presented(sequence, true, now).waiting_for_keyframe,
        !controlled(control, MessageView::KeyframeAck { sequence }).recovery_pending,
        !controlled(control, MessageView::KeyframeAck { sequence }).paused(true),
{
}

/// The full frame of an unchanged desktop becomes due at the refresh interval, and not before.
pub proof fn law_refresh_interval(producer: ProducerView, at: Duration, now: Duration)
    requires
        producer.full_frame_at == Some(at),
        at.nanos <= now.nanos,
    ensures
        producer.refresh_due(now) <==> now.nanos - at.nanos >= FULL_FRAME_REFRESH_INTERVAL,
{
}

} // verus!
