//! What holds of the producing half of a host.
use crate::desktop::dirty::{law_every_change_is_reported, pair_of, SeenFrame};
use crate::desktop::region::{area_sum, update_failure, update_message};
use crate::error::DcErrorView;
use crate::media::frame::{DamageRect, FrameView, PixelFormat};
use crate::media::packet::PacketView;
use crate::media::synthetic::law_interval_is_the_nearest;
use crate::protocol::format::{encode_failure, message_bytes};
use crate::protocol::types::MessageView;
use crate::protocol::Capabilities;
use crate::stream::control::ControlView;
use crate::stream::host::{
    agreed, budget_below, starts_stream, stream_capabilities, EncodedView, EncoderAction,
    FrameActionView, ProducerView, TimeoutActionView,
};
use crate::time::Duration;
use vstd::prelude::*;

verus! {

/// Five seconds in nanoseconds have passed since the last full frame, or there was none.
pub open spec fn overdue(producer: ProducerView, now: Duration) -> bool {
    producer.full_frame_at matches Some(at) ==> now.nanos - at.nanos >= 5_000_000_000
}

/// A frame with changes is never left out, and neither is a frame that is owed: what is left out is
/// a frame of which nothing changed, within five seconds of the last full one.
pub proof fn law_changed_frame_is_never_left_out(
    producer: ProducerView,
    frame: FrameView,
    dirty: Seq<DamageRect>,
    full: bool,
    now: Duration,
)
    ensures
        producer.choice(frame, dirty, full, now) == Ok::<FrameActionView, DcErrorView>(
            FrameActionView::Skip,
        ) <==> dirty.len() == 0 && !full && !overdue(producer, now),
{
}

/// Every changed pixel is sent: where a byte of a pixel differs from the last frame that was seen,
/// the new frame is encoded as a whole, or one of the regions of an update holds that pixel, or the
/// update cannot be made and the stream ends with the failure.
pub proof fn law_every_changed_pixel_is_sent(
    producer: ProducerView,
    last: FrameView,
    frame: FrameView,
    full: bool,
    now: Duration,
    x: int,
    y: int,
    part: int,
)
    requires
        last.facts(),
        frame.facts(),
        last.layout == frame.layout,
        producer.seen == SeenFrame::of(last),
        0 <= x < frame.layout.width(),
        0 <= y < frame.layout.height(),
        ({
            let bytes: int = if frame.layout.pixel_format() == PixelFormat::Rgb24 {
                3
            } else {
                4
            };
            let at = y * frame.layout.stride() + x * bytes + part;
            0 <= part < bytes && last.data[at] != frame.data[at]
        }),
    ensures
        ({
            let dirty = producer.seen.reported(frame);
            match producer.choice(frame, dirty, full, now) {
                Ok(FrameActionView::Encode) => true,
                Ok(FrameActionView::Region(update)) => update.message matches
                    MessageView::DesktopUpdate { regions, .. } && exists|i: int|
                    0 <= i < regions.len() && (#[trigger] regions[i]).x <= x < regions[i].x
                        + regions[i].width && regions[i].y <= y < regions[i].y + regions[i].height,
                Ok(FrameActionView::Skip) => false,
                Err(failure) => update_failure(frame, dirty) == Some(failure) || encode_failure(
                    update_message(frame, dirty, producer.media_sequence),
                ) == Some(failure),
            }
        }),
{
    let dirty = producer.seen.reported(frame);
    let pair = pair_of(last.data, frame);
    assert(pair.differs(y, x * pair.pixel_bytes + part));
    law_every_change_is_reported(producer.seen, frame, x, y, part);
    let i = choose|i: int| 0 <= i < dirty.len() && (#[trigger] dirty[i]).covers(x, y);
    let message = update_message(frame, dirty, producer.media_sequence);
    let regions = message->DesktopUpdate_regions;
    assert(regions[i].x <= x < regions[i].x + regions[i].width && regions[i].y <= y < regions[i].y
        + regions[i].height);
}

/// Changes are sent as regions exactly where they are small: to a peer that takes them, while no
/// full frame is owed, on no more than 35 percent of the frame, in no more than 64 kilobytes. The
/// update is numbered like the pictures and nothing waits for it.
pub proof fn law_small_changes_go_as_regions(
    producer: ProducerView,
    frame: FrameView,
    dirty: Seq<DamageRect>,
    full: bool,
    now: Duration,
)
    requires
        100 * (frame.layout.width() as nat * frame.layout.height() as nat) <= u64::MAX,
        100 * area_sum(dirty) <= u64::MAX,
    ensures
        ({
            let area = frame.layout.width() as nat * frame.layout.height() as nat;
            let message = update_message(frame, dirty, producer.media_sequence);
            let small = producer.features.desktop_optimizations && !full && dirty.len() > 0
                && !overdue(producer, now) && 100 * area_sum(dirty) <= 35 * area;
            &&& !small ==> (producer.choice(frame, dirty, full, now) matches Ok(action) && !(
            action is Region))
            &&& small && update_failure(frame, dirty) is None && encode_failure(message) is None
                ==> producer.choice(frame, dirty, full, now) == Ok::<FrameActionView, DcErrorView>(
                if message_bytes(message).len() <= 65_536 {
                    FrameActionView::Region(
                        EncodedView {
                            message,
                            sequence: producer.media_sequence,
                            encoded_bytes: message_bytes(message).len() as u64,
                            reliable_barrier: false,
                        },
                    )
                } else {
                    FrameActionView::Encode
                },
            )
        }),
{
}

/// An encoder stays as it is exactly while the rates that are asked for stay and no keyframe is
/// asked for; new rates take a new encoder, with those rates.
pub proof fn law_encoder_follows_the_requests(producer: ProducerView, control: ControlView)
    ensures
        ({
            let same = control.target_bitrate == producer.bitrate && control.target_fps
                == producer.fps;
            &&& producer.encoder_action(control) == EncoderAction::Keep <==> same
                && !control.keyframe_requested
            &&& producer.encoder_action(control) == EncoderAction::ForceKeyframe <==> same
                && control.keyframe_requested
            &&& !same ==> producer.encoder_action(control) == (EncoderAction::Recreate {
                bitrate: control.target_bitrate,
                fps: control.target_fps,
            })
            &&& producer.after_plan(control).encoder_action(
                ControlView { keyframe_requested: false, ..control },
            ) == EncoderAction::Keep
        }),
{
}

/// Pictures and region updates are numbered one after the other, whatever the captures were
/// numbered: each takes the next number, and nothing else takes one.
pub proof fn law_messages_are_numbered_in_order(
    producer: ProducerView,
    packet: PacketView,
    full: bool,
    action: FrameActionView,
    now: Duration,
)
    requires
        producer.media_sequence < u64::MAX,
    ensures
        ({
            let queued = producer.queued(packet, full);
            let after = producer.after_packet(now);
            &&& queued.sequence == producer.media_sequence
            &&& queued.message matches MessageView::Video { sequence, keyframe, data, .. }
                && sequence == producer.media_sequence && keyframe == packet.keyframe && data
                == packet.data
            &&& queued.encoded_bytes == packet.data.len() as u64
            &&& queued.reliable_barrier <==> packet.keyframe && (full || producer.media_sequence
                == 0)
            &&& after.media_sequence == producer.media_sequence + 1
            &&& after.full_frame_at == Some(now)
            &&& after.queued(packet, full).sequence == queued.sequence + 1
            &&& producer.after_choice(action).media_sequence == producer.media_sequence + (
            if action is Region {
                1int
            } else {
                0
            })
            &&& producer.after_choice(action).full_frame_at == producer.full_frame_at
        }),
{
}

/// A barrier to a peer that takes keyframes reliably pauses capture; nothing else does.
pub proof fn law_barriers_hold_up_the_stream(
    producer: ProducerView,
    queued: EncodedView,
    control: ControlView,
)
    ensures
        ({
            let after = producer.holds_up(queued, control);
            &&& after.recovery_pending <==> control.recovery_pending || (queued.reliable_barrier
                && producer.features.hybrid_video)
            &&& after.keyframe_requested == control.keyframe_requested
            &&& after.target_bitrate == control.target_bitrate
            &&& after.target_fps == control.target_fps
            &&& after.shutdown == control.shutdown
        }),
{
}

/// When nothing can be captured, a stream that is shut down ends; a keyframe that was asked for, or
/// one that is overdue on a peer that takes regions, is made of the last frame, with the next number
/// and at a later time so that no encoder takes it for a duplicate; else capture is tried again.
pub proof fn law_last_frame_answers_for_a_still_desktop(
    producer: ProducerView,
    control: ControlView,
    now: Duration,
)
    requires
        0 < producer.fps <= 1_000_000_000,
        producer.last_sequence < u64::MAX,
        producer.last_frame matches Some(last) ==> last.timestamp.nanos
            <= 18_446_744_073_000_000_000_000_000_000,
    ensures
        control.shutdown <==> producer.on_timeout(control, now) == Ok::<
            TimeoutActionView,
            DcErrorView,
        >(TimeoutActionView::Stop),
        !control.shutdown && control.keyframe_requested && producer.last_frame is None
            ==> producer.on_timeout(control, now) is Err,
        !control.shutdown && (control.keyframe_requested || (producer.features.desktop_optimizations
            && overdue(producer, now))) && producer.last_frame is Some ==> (
        producer.on_timeout(control, now) matches Ok(TimeoutActionView::Resend(frame)) && {
            let last = producer.last_frame->Some_0;
            &&& frame.data == last.data
            &&& frame.layout == last.layout
            &&& frame.sequence == producer.last_sequence + 1
            &&& last.timestamp.nanos < frame.timestamp.nanos <= last.timestamp.nanos
                + 5_000_000_000
            &&& frame.metadata.cursor is None
            &&& frame.metadata.damage is None
        }),
        !control.shutdown && !control.keyframe_requested && (producer.last_frame is None || !(
        producer.features.desktop_optimizations && overdue(producer, now))) ==> producer.on_timeout(
            control,
            now,
        ) == Ok::<TimeoutActionView, DcErrorView>(TimeoutActionView::Wait),
{
    law_interval_is_the_nearest(producer.fps as nat);
}

/// Frames are at least one interval apart, and a producer that is late does not make up for it.
pub proof fn law_frames_are_paced(producer: ProducerView, now: Duration)
    requires
        producer.next_frame_at.nanos + producer.interval().nanos
            <= 18_446_744_073_000_000_000_000_000_000,
    ensures
        ({
            let due = producer.next_frame_at.nanos + producer.interval().nanos;
            let (after, sleep) = producer.paced(now);
            &&& now.nanos <= due ==> now.nanos + sleep.nanos == due && after.next_frame_at.nanos
                == due
            &&& now.nanos > due ==> sleep.nanos == 0 && after.next_frame_at == now
        }),
{
}

/// The viewer is told a cursor once: every cursor that differs from the last that it was told, and
/// none that does not. Only a peer that takes cursors is told any.
pub proof fn law_cursors_are_told_once(producer: ProducerView, frame: FrameView, next: FrameView)
    ensures
        producer.cursor_changed(frame) <==> producer.features.desktop_optimizations
            && frame.metadata.cursor is Some && frame.metadata.cursor != producer.last_cursor,
        next.metadata.cursor == frame.metadata.cursor ==> !producer.after_cursor(
            frame,
        ).cursor_changed(next),
        producer.features.desktop_optimizations && next.metadata.cursor is Some
            && next.metadata.cursor != frame.metadata.cursor && frame.metadata.cursor is Some
            ==> producer.after_cursor(frame).cursor_changed(next),
        producer.cursor_changed(frame) && producer.cursor_sequence < u64::MAX
            ==> producer.after_frame(frame).cursor_sequence == producer.cursor_sequence + 1,
        !producer.cursor_changed(frame) ==> producer.after_frame(frame).cursor_sequence
            == producer.cursor_sequence,
        producer.after_frame(frame).seen == SeenFrame::of(frame),
        producer.after_frame(frame).last_sequence == frame.sequence,
        producer.after_frame(frame).media_sequence == producer.media_sequence,
        producer.finished(frame).last_frame == Some(frame),
{
}

/// Region updates and datagrams for single units are agreed on only with a peer that announces them
/// and takes keyframes reliably.
pub proof fn law_features_need_both_ends(peer: Capabilities)
    ensures
        agreed(peer).hybrid_video <==> peer.hybrid_video,
        agreed(peer).desktop_optimizations <==> peer.desktop_optimizations && peer.hybrid_video,
        agreed(peer).h264_nal_datagrams <==> peer.h264_nal_datagrams && peer.hybrid_video,
{
}

/// A stream starts with the first frame that shows something, and after two seconds with any: a
/// frame shows something as soon as one byte of it is larger than four.
pub proof fn law_black_frames_wait_two_seconds(frame: FrameView, elapsed: Duration, place: int)
    requires
        0 <= place < frame.data.len(),
    ensures
        frame.data[place] > 4 ==> starts_stream(frame, elapsed),
        elapsed.nanos >= 2_000_000_000 ==> starts_stream(frame, elapsed),
        elapsed.nanos < 2_000_000_000 && (forall|i: int|
            0 <= i < frame.data.len() ==> #[trigger] frame.data[i] <= 4) ==> !starts_stream(
            frame,
            elapsed,
        ),
{
}

/// Both ends of a stream show the desktop, take input and know all that makes the stream better, and
/// nothing else.
pub proof fn law_streams_offer_the_desktop()
    ensures
        stream_capabilities().desktop,
        stream_capabilities().control_input,
        stream_capabilities().hybrid_video,
        stream_capabilities().desktop_optimizations,
        stream_capabilities().h264_nal_datagrams,
        !stream_capabilities().terminal,
        !stream_capabilities().command_execution,
        !stream_capabilities().file_transfer,
        !stream_capabilities().clipboard,
        !stream_capabilities().ssh_compatibility,
{
}

/// Slices leave 128 bytes of a datagram for the envelope, and have 256 bytes at least.
pub proof fn law_slices_leave_room_for_the_envelope(size: usize)
    requires
        size <= u32::MAX,
    ensures
        budget_below(size) is Some,
        budget_below(size)->Some_0 >= 256,
        size >= 384 ==> budget_below(size)->Some_0 + 128 == size,
        size < 384 ==> budget_below(size)->Some_0 == 256,
{
}

/// The news of a cursor carry the number that cursors have come to, and the cursor of the frame.
pub proof fn law_cursor_news_tell_the_cursor(producer: ProducerView, frame: FrameView)
    requires
        frame.metadata.cursor is Some,
    ensures
        ({
            let news = producer.cursor_news(frame);
            let cursor = frame.metadata.cursor->Some_0;
            &&& news is Cursor
            &&& news->Cursor_sequence == producer.cursor_sequence
            &&& news->visible == cursor.visible
            &&& news->Cursor_x == cursor.x
            &&& news->Cursor_y == cursor.y
            &&& news->shape is Some <==> cursor.shape is Some
        }),
{
}

/// A step of the producer changes what it is about and nothing else.
pub proof fn law_steps_keep_the_rest(
    producer: ProducerView,
    frame: FrameView,
    action: FrameActionView,
    control: ControlView,
    now: Duration,
)
    ensures
        producer.after_frame(frame) == (ProducerView {
            seen: producer.after_frame(frame).seen,
            last_sequence: frame.sequence,
            cursor_sequence: producer.after_frame(frame).cursor_sequence,
            ..producer
        }),
        producer.after_cursor(frame) == (ProducerView {
            last_cursor: if frame.metadata.cursor is Some {
                frame.metadata.cursor
            } else {
                producer.last_cursor
            },
            ..producer
        }),
        producer.after_choice(action) == (ProducerView {
            media_sequence: producer.after_choice(action).media_sequence,
            ..producer
        }),
        producer.after_packet(now) == (ProducerView {
            media_sequence: producer.after_packet(now).media_sequence,
            full_frame_at: Some(now),
            ..producer
        }),
        producer.media_sequence == u64::MAX ==> producer.after_packet(now).media_sequence == 0,
        producer.after_plan(control) == (ProducerView {
            bitrate: control.target_bitrate,
            fps: control.target_fps,
            ..producer
        }),
        producer.finished(frame) == (ProducerView { last_frame: Some(frame), ..producer }),
        producer.paced(now).0 == (ProducerView {
            next_frame_at: producer.paced(now).0.next_frame_at,
            ..producer
        }),
{
}

} // verus!
