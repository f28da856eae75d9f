//! What holds of a viewer that follows a stream.
use crate::auth::Permissions;
use crate::desktop::convert::message_failure;
use crate::desktop::region::region_payload;
use crate::error::DcErrorView;
use crate::protocol::types::MessageView;
use crate::stream::host::MediaFeatures;
use crate::stream::profile::RateProfile;
use crate::stream::viewer::{
    datagram_refusal, follows, viewing_refusal, ViewerAction, ViewerChoice, ViewerView,
};
use crate::time::Duration;
use vstd::prelude::*;

verus! {

/// The number of a picture or of a region update.
pub open spec fn number_of(message: MessageView) -> Option<u64> {
    match message {
        MessageView::Video { sequence, .. } => Some(sequence),
        MessageView::DesktopUpdate { sequence, .. } => Some(sequence),
        _ => None,
    }
}

/// Whatever is applied counts as presented: behind a region update the viewer has the update's
/// number, the same update again changes nothing, and a picture with the next number is decoded
/// without a new decoder, as behind any other message that was not lost.
pub proof fn law_applied_update_counts_as_presented(
    viewer: ViewerView,
    update: MessageView,
    next: MessageView,
    now: Duration,
    later: Duration,
    datagrams: u64,
)
    requires
        viewer.after(update, now, datagrams).1 matches Ok(choice) && choice is ApplyRegions,
    ensures
        ({
            let after = viewer.after(update, now, datagrams).0;
            &&& update is DesktopUpdate
            &&& after.last_sequence == Some(update->DesktopUpdate_sequence)
            &&& after.waiting_for_keyframe == viewer.waiting_for_keyframe
            &&& after.after(update, later, datagrams).1 == Ok::<ViewerChoice, DcErrorView>(
                ViewerChoice::Ignore,
            )
            &&& after.after(update, later, datagrams).0.last_sequence == after.last_sequence
            &&& next is Video && message_failure(next) is None && next->Video_sequence
                == update->DesktopUpdate_sequence + 1 && !viewer.waiting_for_keyframe ==> {
                &&& after.after(next, later, datagrams).1 == Ok::<ViewerChoice, DcErrorView>(
                    ViewerChoice::Decode { reset: false },
                )
                &&& after.after(next, later, datagrams).0.lost == after.lost
            }
        }),
{
}

/// A picture that was presented counts as such: it is not shown again, what comes before it is
/// ignored, and the picture with the next number is decoded as it is.
pub proof fn law_presented_picture_is_behind(
    viewer: ViewerView,
    sequence: u64,
    keyframe: bool,
    next: MessageView,
    now: Duration,
    later: Duration,
    datagrams: u64,
)
    requires
        next is Video,
        message_failure(next) is None,
    ensures
        ({
            let after = viewer.presented(sequence, keyframe, now);
            let (further, choice) = after.after(next, later, datagrams);
            &&& after.last_sequence == Some(sequence)
            &&& !after.waiting_for_keyframe
            &&& next->Video_sequence <= sequence ==> choice == Ok::<ViewerChoice, DcErrorView>(
                ViewerChoice::Ignore,
            )
            &&& next->Video_sequence == sequence + 1 ==> choice == Ok::<
                ViewerChoice,
                DcErrorView,
            >(ViewerChoice::Decode { reset: false }) && further.lost == after.lost
        }),
{
}

/// Every message that is missing between two that arrive is counted once.
pub proof fn law_missing_messages_are_counted(
    viewer: ViewerView,
    message: MessageView,
    now: Duration,
    datagrams: u64,
)
    requires
        viewer.after(message, now, datagrams).1 matches Ok(choice) && !(choice is Cursor),
    ensures
        ({
            let after = viewer.after(message, now, datagrams).0;
            match (viewer.last_sequence, number_of(message)) {
                (Some(last), Some(number)) => if number > last && viewer.lost + (number - last - 1)
                    <= u64::MAX {
                    after.lost == viewer.lost + (number - last - 1)
                } else {
                    number > last || after.lost == viewer.lost
                },
                _ => after.lost == viewer.lost,
            }
        }),
{
}

/// A picture whose predecessor is missing is of no use unless it is a keyframe: the viewer then waits
/// for one, asks for it, and decodes the next keyframe with a new decoder. A keyframe is decoded in
/// any case.
pub proof fn law_lost_pictures_take_a_keyframe(
    viewer: ViewerView,
    message: MessageView,
    now: Duration,
    datagrams: u64,
)
    requires
        message is Video,
        message_failure(message) is None,
        viewer.last_sequence matches Some(last) ==> message->Video_sequence > last,
    ensures
        ({
            let gap = viewer.last_sequence matches Some(last) && message->Video_sequence > last + 1;
            let (after, choice) = viewer.after(message, now, datagrams);
            let asks = viewer.last_keyframe_request matches Some(at) ==> now.nanos - at.nanos
                >= 1_000_000_000;
            &&& after.waiting_for_keyframe <==> viewer.waiting_for_keyframe || gap
            &&& message->Video_keyframe ==> choice == Ok::<ViewerChoice, DcErrorView>(
                ViewerChoice::Decode { reset: viewer.waiting_for_keyframe || gap },
            )
            &&& !message->Video_keyframe && !viewer.waiting_for_keyframe && !gap ==> choice == Ok::<
                ViewerChoice,
                DcErrorView,
            >(ViewerChoice::Decode { reset: false })
            &&& !message->Video_keyframe && (viewer.waiting_for_keyframe || gap) ==> choice == Ok::<
                ViewerChoice,
                DcErrorView,
            >(
                ViewerChoice::Withhold {
                    request: if asks {
                        Some(
                            MessageView::KeyframeRequest {
                                last_sequence: message->Video_sequence,
                            },
                        )
                    } else {
                        None
                    },
                },
            ) && after.last_keyframe_request == (if asks {
                Some(now)
            } else {
                viewer.last_keyframe_request
            })
            &&& after.last_sequence == viewer.last_sequence
            &&& after.desktop_size == Some((message->Video_width, message->Video_height))
            &&& after.last_frame_progress == now
            &&& after.datagrams_at_last_frame == datagrams
        }),
{
}

/// What a peer did not agree to is refused, and what it agreed to is taken: cursors and region
/// updates come only from a host that was told that they are understood.
pub proof fn law_only_agreed_messages_are_taken(
    viewer: ViewerView,
    message: MessageView,
    now: Duration,
    datagrams: u64,
)
    requires
        message is Cursor || message is DesktopUpdate,
        message is DesktopUpdate && viewer.last_sequence is Some
            ==> message->DesktopUpdate_sequence > viewer.last_sequence->Some_0,
    ensures
        !viewer.features.desktop_optimizations ==> viewer.after(message, now, datagrams).1 is Err,
        viewer.features.desktop_optimizations && message is Cursor ==> viewer.after(
            message,
            now,
            datagrams,
        ) == (viewer, Ok::<ViewerChoice, DcErrorView>(ViewerChoice::Cursor)),
        viewer.features.desktop_optimizations && message is DesktopUpdate ==> match region_payload(
            message,
        ) {
            Ok(payload) => viewer.after(message, now, datagrams).1 == Ok::<
                ViewerChoice,
                DcErrorView,
            >(ViewerChoice::ApplyRegions { payload }),
            Err(failure) => viewer.after(message, now, datagrams).1 == Err::<
                ViewerChoice,
                DcErrorView,
            >(failure),
        },
{
}

/// After a picture that could not be decoded only a keyframe helps, and a host that waits for its
/// keyframe to be shown is told so, by the keyframe's number.
pub proof fn law_keyframes_are_asked_for_and_acknowledged(
    viewer: ViewerView,
    sequence: u64,
    keyframe: bool,
    now: Duration,
)
    ensures
        viewer.failed(now).waiting_for_keyframe,
        viewer.failed(now).last_sequence == viewer.last_sequence,
        viewer.acknowledgement(sequence, keyframe) == (if keyframe && viewer.features.hybrid_video {
            Some(MessageView::KeyframeAck { sequence })
        } else {
            None::<MessageView>
        }),
        viewer.last_keyframe_request is None ==> viewer.request(Some(sequence), now) == Some(
            MessageView::KeyframeRequest { last_sequence: sequence },
        ),
        viewer.request(None, now) matches Some(request) ==> request
            == (MessageView::KeyframeRequest { last_sequence: 0 }),
        viewer.request(Some(sequence), now) is Some ==> viewer.failed(now).last_keyframe_request
            == Some(now),
        viewer.rate_hint() == (MessageView::RateHint {
            bitrate: viewer.requested_bitrate,
            frames_per_second: viewer.requested_fps,
        }),
{
}

/// A stream has stalled when for two seconds no frame was complete although datagrams came, and a
/// keyframe may be asked for. The viewer then asks for at most two thirds of its rates and for a
/// keyframe, and does not look again before two more seconds have passed.
pub proof fn law_stalled_stream_is_slowed(viewer: ViewerView, now: Duration, datagrams: u64)
    ensures
        ({
            let (after, requests) = viewer.watched(now, datagrams);
            let stalled = now.nanos - viewer.last_frame_progress.nanos >= 2_000_000_000 && datagrams
                > viewer.datagrams_at_last_frame && (viewer.last_keyframe_request matches Some(at)
                ==> now.nanos - at.nanos >= 1_000_000_000);
            &&& !stalled ==> after == viewer && requests is None
            &&& stalled ==> {
                &&& requests is Some
                &&& requests->Some_0.0 == (MessageView::RateHint {
                    bitrate: after.requested_bitrate,
                    frames_per_second: after.requested_fps,
                })
                &&& requests->Some_0.1 is KeyframeRequest
                &&& viewer.last_sequence matches Some(last)
                    ==> requests->Some_0.1->KeyframeRequest_last_sequence == last
                &&& viewer.last_sequence is None
                    ==> requests->Some_0.1->KeyframeRequest_last_sequence == 0
                &&& after.last_frame_progress == now
                &&& after.datagrams_at_last_frame == datagrams
                &&& after.last_keyframe_request == Some(now)
                &&& after.stable_inter_frames == 0
                &&& after.stable_since == now
                &&& after.last_sequence == viewer.last_sequence
                &&& after.waiting_for_keyframe == viewer.waiting_for_keyframe
                &&& after.lost == viewer.lost
                &&& after.desktop_size == viewer.desktop_size
                &&& after.profile == viewer.profile
                &&& after.features == viewer.features
                &&& viewer.requested_bitrate < 0x8000_0000 ==> after.requested_bitrate
                    >= viewer.profile.min_bitrate && (after.requested_bitrate
                    == viewer.profile.min_bitrate || 3 * after.requested_bitrate <= 2
                    * viewer.requested_bitrate < 3 * after.requested_bitrate + 3)
                &&& viewer.profile.min_fps <= u16::MAX ==> after.requested_fps
                    >= viewer.profile.min_fps && (after.requested_fps == viewer.profile.min_fps || 3
                    * after.requested_fps <= 2 * viewer.requested_fps < 3 * after.requested_fps + 3)
            }
        }),
{
}

/// A stream is steady when eight frames came in a row and nothing was lost for five seconds, and only
/// while there is something left to raise. Then about a third more bits and one more frame a second
/// are asked for, and the count begins anew.
pub proof fn law_steady_stream_is_raised(viewer: ViewerView, now: Duration)
    requires
        viewer.profile.max_fps < 0x1_0000,
        viewer.requested_fps < 0xffff,
        viewer.requested_bitrate < 0x4000_0000,
    ensures
        ({
            let (after, hint) = viewer.upgraded(now);
            let steady = viewer.stable_inter_frames >= 8 && now.nanos - viewer.stable_since.nanos
                >= 5_000_000_000 && (viewer.requested_bitrate < viewer.profile.max_bitrate
                || viewer.requested_fps < viewer.profile.max_fps);
            &&& !steady ==> after == viewer && hint is None
            &&& steady ==> {
                &&& hint == Some(
                    MessageView::RateHint {
                        bitrate: after.requested_bitrate,
                        frames_per_second: after.requested_fps,
                    },
                )
                &&& after.requested_bitrate <= viewer.profile.max_bitrate
                &&& after.requested_bitrate == viewer.profile.max_bitrate || 3 * (
                after.requested_bitrate - 1) <= 4 * viewer.requested_bitrate < 3
                    * after.requested_bitrate
                &&& after.requested_fps <= viewer.profile.max_fps
                &&& after.requested_fps == viewer.profile.max_fps || after.requested_fps
                    == viewer.requested_fps + 1
                &&& after.stable_inter_frames == 0
                &&& after.stable_since == now
                &&& after.last_sequence == viewer.last_sequence
                &&& after.waiting_for_keyframe == viewer.waiting_for_keyframe
                &&& after.last_keyframe_request == viewer.last_keyframe_request
                &&& after.lost == viewer.lost
                &&& after.profile == viewer.profile
            }
        }),
{
}

/// A viewer begins without a picture: it waits for a keyframe, may ask for one at once, and asks for
/// the rates at which its profile begins.
pub proof fn law_viewer_begins_without_a_picture(
    features: MediaFeatures,
    profile: RateProfile,
    now: Duration,
)
    requires
        profile.initial_fps <= u16::MAX,
    ensures
        ({
            let viewer = ViewerView::initial(features, profile, now);
            &&& viewer.features == features
            &&& viewer.profile == profile
            &&& viewer.last_sequence is None
            &&& viewer.last_keyframe_request is None
            &&& viewer.waiting_for_keyframe
            &&& viewer.rate_hint() == (MessageView::RateHint {
                bitrate: profile.initial_bitrate,
                frames_per_second: profile.initial_fps as u16,
            })
            &&& viewer.stable_inter_frames == 0
            &&& viewer.stable_since == now
            &&& viewer.last_frame_progress == now
            &&& viewer.datagrams_at_last_frame == 0
            &&& viewer.desktop_size is None
            &&& viewer.lost == 0
        }),
{
}

/// Frames in a row are counted; a gap and a keyframe end the row.
pub proof fn law_frames_in_a_row_are_counted(
    viewer: ViewerView,
    message: MessageView,
    sequence: u64,
    now: Duration,
    datagrams: u64,
)
    requires
        viewer.stable_inter_frames < u32::MAX,
    ensures
        viewer.presented(sequence, false, now).stable_inter_frames == viewer.stable_inter_frames + 1,
        viewer.presented(sequence, false, now).stable_since == viewer.stable_since,
        viewer.presented(sequence, true, now).stable_inter_frames == 0,
        viewer.presented(sequence, true, now).stable_since == now,
        viewer.after(message, now, datagrams).1 matches Ok(choice) && choice is ApplyRegions
            ==> viewer.after(message, now, datagrams).0.stable_inter_frames == (
        if viewer.last_sequence matches Some(last) && message->DesktopUpdate_sequence > last + 1 {
            1int
        } else {
            viewer.stable_inter_frames + 1
        }),
        message is Video && !message->Video_keyframe && (viewer.last_sequence matches Some(last)
            && message->Video_sequence > last + 1) ==> viewer.after(
            message,
            now,
            datagrams,
        ).0.stable_inter_frames == 0,
{
}

/// The datagrams that have not made a frame yet are those that came since the last one that was
/// complete.
pub proof fn law_datagrams_since_the_last_frame(
    viewer: ViewerView,
    message: MessageView,
    now: Duration,
    datagrams: u64,
    later: u64,
)
    requires
        datagrams <= later,
    ensures
        viewer.progressed(now, datagrams).datagrams_since(later) == later - datagrams,
        viewer.datagrams_at_last_frame <= later ==> viewer.datagrams_since(later) == later
            - viewer.datagrams_at_last_frame,
        later < viewer.datagrams_at_last_frame ==> viewer.datagrams_since(later) == 0,
{
}

/// What a viewer does is what it chose to do: it decodes the picture that came, with a new decoder
/// where it chose so, applies the pixels that it read, or withholds the picture and sends the request.
pub proof fn law_viewer_does_what_it_chose(
    action: ViewerAction,
    choice: ViewerChoice,
    message: MessageView,
)
    requires
        follows(action, choice, message),
    ensures
        choice is Cursor <==> action is Cursor,
        choice is Ignore <==> action is Ignore,
        choice matches ViewerChoice::ApplyRegions { payload } ==> action matches
            ViewerAction::ApplyRegions { payload: pixels } && pixels@ == payload,
        choice matches ViewerChoice::Withhold { request } ==> action matches
            ViewerAction::Withhold { request: sent } && (sent is Some <==> request is Some) && (sent
            is Some ==> sent->Some_0@ == request->Some_0),
        choice matches ViewerChoice::Decode { reset } ==> action matches ViewerAction::Decode {
            packet,
            reset: anew,
        } && anew == reset && packet@.data == message->Video_data && packet@.sequence
            == message->Video_sequence && packet@.keyframe == message->Video_keyframe,
{
}

/// Every message but a cursor is progress, whatever becomes of it. A cursor changes nothing, a message
/// that comes too late changes nothing else, and no message changes what was agreed on or asked for.
pub proof fn law_messages_are_progress(
    viewer: ViewerView,
    message: MessageView,
    now: Duration,
    datagrams: u64,
)
    ensures
        ({
            let (after, choice) = viewer.after(message, now, datagrams);
            &&& message is Cursor ==> after == viewer
            &&& !(message is Cursor) ==> after.last_frame_progress == now
                && after.datagrams_at_last_frame == datagrams
            &&& after.features == viewer.features
            &&& after.profile == viewer.profile
            &&& after.requested_bitrate == viewer.requested_bitrate
            &&& after.requested_fps == viewer.requested_fps
            &&& (match (viewer.last_sequence, number_of(message)) {
                (Some(last), Some(number)) => {
                    &&& number <= last ==> after == (ViewerView {
                        last_frame_progress: now,
                        datagrams_at_last_frame: datagrams,
                        ..viewer
                    }) && choice == Ok::<ViewerChoice, DcErrorView>(ViewerChoice::Ignore)
                    &&& number > last ==> choice != Ok::<ViewerChoice, DcErrorView>(
                        ViewerChoice::Ignore,
                    )
                    &&& number > last && viewer.lost + (number - last - 1) > u64::MAX ==> after.lost
                        == u64::MAX
                },
                _ => choice != Ok::<ViewerChoice, DcErrorView>(ViewerChoice::Ignore),
            })
            &&& message is DesktopUpdate ==> {
                &&& after.desktop_size == viewer.desktop_size
                &&& after.waiting_for_keyframe == viewer.waiting_for_keyframe
                &&& after.last_keyframe_request == viewer.last_keyframe_request
                &&& choice is Err ==> after.last_sequence == viewer.last_sequence
            }
            &&& message is Video && choice is Err ==> {
                &&& after.last_sequence == viewer.last_sequence
                &&& after.desktop_size == viewer.desktop_size
                &&& after.waiting_for_keyframe == viewer.waiting_for_keyframe
            }
            &&& !(message is Video || message is DesktopUpdate || message is Cursor) ==> choice
                is Err
        }),
{
}

/// To show a picture, or to fail to, changes nothing of what was agreed on, asked for or counted; a
/// keyframe is asked for again after one second at the earliest.
pub proof fn law_showing_keeps_the_rest(
    viewer: ViewerView,
    sequence: u64,
    keyframe: bool,
    now: Duration,
)
    ensures
        viewer.presented(sequence, keyframe, now) == (ViewerView {
            waiting_for_keyframe: false,
            last_sequence: Some(sequence),
            stable_inter_frames: viewer.presented(sequence, keyframe, now).stable_inter_frames,
            stable_since: if keyframe {
                now
            } else {
                viewer.stable_since
            },
            ..viewer
        }),
        viewer.failed(now) == (ViewerView {
            waiting_for_keyframe: true,
            last_keyframe_request: match viewer.last_keyframe_request {
                Some(at) => if now.nanos - at.nanos >= 1_000_000_000 {
                    Some(now)
                } else {
                    Some(at)
                },
                None => Some(now),
            },
            ..viewer
        }),
        viewer.last_keyframe_request matches Some(at) ==> (viewer.request(Some(sequence), now)
            is Some <==> now.nanos - at.nanos >= 1_000_000_000),
{
}

/// The desktop may be viewed exactly by a peer that is permitted to, over a path that carries
/// datagrams.
pub proof fn law_viewing_takes_permission_and_datagrams(
    permissions: Permissions,
    max_datagram_size: Option<usize>,
)
    ensures
        viewing_refusal(permissions) is None <==> permissions.view_desktop,
        datagram_refusal(max_datagram_size) is None <==> max_datagram_size is Some,
        viewing_refusal(permissions) is Some ==> viewing_refusal(permissions)->Some_0
            is Unsupported,
        datagram_refusal(max_datagram_size) is Some ==> datagram_refusal(
            max_datagram_size,
        )->Some_0 is Unsupported,
{
}

} // verus!
