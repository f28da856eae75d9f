//! The sending half of a host: how queued frames reach the viewer, and what the viewer's own
//! messages change.
use crate::desktop::datagram::{
    buffers, datagrams, media_sequence_of, packetize_failure, packetize_video_message, HEADER_LEN,
};
use crate::desktop::nal_datagram::{
    message_datagrams, nal_packetize_failure, packetize_h264_nal_message,
};
use crate::error::{DcError, DcErrorView};
use crate::protocol::format::message_bytes;
use crate::protocol::types::MessageView;
use crate::protocol::{InputEvent, WireMessage};
use crate::stream::control::{ControlView, StreamControl};
use crate::stream::frames::{is_keyframe_message, keyframe_message};
use crate::stream::host::{EncodedFrame, EncodedView, MediaFeatures};
use vstd::prelude::*;

verus! {

/// The number of datagrams above which a frame is dropped: at 1440 by 900 pixels even a frame of
/// a low bit rate takes sixty to ninety, and the viewer discards an incomplete frame anyway.
pub const MAX_DATAGRAM_FRAGMENTS_PER_FRAME: usize = 96;

/// How a queued frame is sent.
#[derive(Debug)]
pub enum SendAction {
    /// On the reliable stream. Behind a barrier the queue is emptied: what it holds is stale.
    Reliable { barrier: bool },
    /// Not at all: it depends on a keyframe that the viewer does not have yet.
    Withhold,
    /// Not at all: it is too large. The rates that were asked for in its place, if any.
    Oversized { count: usize, rates: Option<(u32, u16)> },
    /// In these datagrams. A peer that cannot acknowledge a keyframe counts as having it
    /// afterwards.
    Datagrams { fragments: Vec<Vec<u8>>, acknowledge: bool },
}

/// How a queued frame is sent.
pub enum SendActionView {
    Reliable { barrier: bool },
    Withhold,
    Oversized { count: nat, rates: Option<(u32, u16)> },
    Datagrams { fragments: Seq<Seq<u8>>, acknowledge: bool },
}

impl View for SendAction {
    type V = SendActionView;

    open spec fn view(&self) -> SendActionView {
        match *self {
            SendAction::Reliable { barrier } => SendActionView::Reliable { barrier },
            SendAction::Withhold => SendActionView::Withhold,
            SendAction::Oversized { count, rates } => SendActionView::Oversized {
                count: count as nat,
                rates,
            },
            SendAction::Datagrams { fragments, acknowledge } => SendActionView::Datagrams {
                fragments: buffers(fragments@),
                acknowledge,
            },
        }
    }
}

/// Whether a message is cut at the units of its codec.
pub open spec fn cut_at_units(features: MediaFeatures, message: MessageView) -> bool {
    features.h264_nal_datagrams && (message matches MessageView::Video { codec, .. } && codec == 1)
}

/// The datagrams that carry a message, or why there are none.
pub open spec fn fragments_of(
    features: MediaFeatures,
    message: MessageView,
    max_datagram_size: nat,
) -> Result<Seq<Seq<u8>>, DcErrorView> {
    if cut_at_units(features, message) {
        match nal_packetize_failure(message, max_datagram_size) {
            Some(error) => Err(error),
            None => Ok(message_datagrams(message, max_datagram_size)),
        }
    } else {
        match packetize_failure(message, max_datagram_size) {
            Some(error) => Err(error),
            None => Ok(
                datagrams(
                    media_sequence_of(message)->Some_0,
                    message_bytes(message),
                    (max_datagram_size - HEADER_LEN) as nat,
                ),
            ),
        }
    }
}

/// How a queued frame is sent: cursors and keyframes reliably, everything else in datagrams,
/// unless the viewer still waits for a keyframe or the frame is too large.
pub open spec fn sending(
    features: MediaFeatures,
    control: ControlView,
    frame: EncodedView,
    max_datagram_size: nat,
) -> Result<SendActionView, DcErrorView> {
    let keyframe = keyframe_message(frame.message);
    if frame.message is Cursor {
        if features.hybrid_video {
            Ok(SendActionView::Reliable { barrier: false })
        } else {
            Err(DcErrorView::Codec("cursor update requires reliable media"@))
        }
    } else if keyframe && features.hybrid_video {
        Ok(SendActionView::Reliable { barrier: frame.reliable_barrier })
    } else if features.hybrid_video && control.recovery_pending {
        Ok(SendActionView::Withhold)
    } else {
        match fragments_of(features, frame.message, max_datagram_size) {
            Err(error) => Err(error),
            Ok(fragments) => if !features.h264_nal_datagrams && !keyframe && fragments.len()
                > MAX_DATAGRAM_FRAGMENTS_PER_FRAME {
                Ok(
                    SendActionView::Oversized {
                        count: fragments.len(),
                        rates: if control.recovery_pending || control.at_floor() {
                            None
                        } else {
                            Some(control.lower_rate())
                        },
                    },
                )
            } else {
                Ok(SendActionView::Datagrams { fragments, acknowledge: keyframe })
            },
        }
    }
}

/// The stream after a message was looked at: one that is too large lowers the rates.
pub open spec fn after_sending(control: ControlView, action: SendActionView) -> ControlView {
    if action is Oversized {
        control.with_lower_request()
    } else {
        control
    }
}

fn fragment(features: MediaFeatures, message: &WireMessage, max_datagram_size: usize) -> (result:
    Result<Vec<Vec<u8>>, DcError>)
    ensures
        match result {
            Ok(fragments) => fragments_of(features, message@, max_datagram_size as nat) == Ok::<
                Seq<Seq<u8>>,
                DcErrorView,
            >(buffers(fragments@)),
            Err(error) => fragments_of(features, message@, max_datagram_size as nat) == Err::<
                Seq<Seq<u8>>,
                DcErrorView,
            >(error@),
        },
{
    let at_units = match message {
        WireMessage::Video { codec, .. } => features.h264_nal_datagrams && *codec == 1,
        _ => false,
    };
    if at_units {
        packetize_h264_nal_message(message, max_datagram_size)
    } else {
        packetize_video_message(message, max_datagram_size)
    }
}

/// Decides how a queued frame is sent. An oversized frame asks for a keyframe at lower rates.
pub fn dispatch(
    features: MediaFeatures,
    control: &mut StreamControl,
    frame: &EncodedFrame,
    max_datagram_size: usize,
) -> (result: Result<SendAction, DcError>)
    ensures
        match result {
            Ok(action) => {
                &&& sending(features, old(control)@, frame@, max_datagram_size as nat) == Ok::<
                    SendActionView,
                    DcErrorView,
                >(action@)
                &&& final(control)@ == after_sending(old(control)@, action@)
            },
            Err(error) => {
                &&& sending(features, old(control)@, frame@, max_datagram_size as nat) == Err::<
                    SendActionView,
                    DcErrorView,
                >(error@)
                &&& final(control)@ == old(control)@
            },
        },
{
    if let WireMessage::Cursor { .. } = &frame.message {
        if features.hybrid_video {
            return Ok(SendAction::Reliable { barrier: false });
        }
        return Err(DcError::codec("cursor update requires reliable media"));
    }
    let keyframe = is_keyframe_message(&frame.message);
    if keyframe && features.hybrid_video {
        return Ok(SendAction::Reliable { barrier: frame.reliable_barrier });
    }
    if features.hybrid_video && control.recovery_pending() {
        return Ok(SendAction::Withhold);
    }
    let fragments = fragment(features, &frame.message, max_datagram_size)?;
    assert(buffers(fragments@).len() == fragments@.len());
    if !features.h264_nal_datagrams && !keyframe && fragments.len()
        > MAX_DATAGRAM_FRAGMENTS_PER_FRAME {
        let rates = control.request_lower_rate_keyframe();
        return Ok(SendAction::Oversized { count: fragments.len(), rates });
    }
    Ok(SendAction::Datagrams { fragments, acknowledge: keyframe })
}

/// What a message of the viewer asks of the host.
#[derive(Clone, Copy, Debug, Eq, PartialEq, Structural)]
pub enum ControlAction {
    /// Inject an input event.
    Inject(InputEvent),
    /// Nothing beyond what has been noted.
    Continue,
    /// End the stream.
    Stop,
}

/// What a message of the viewer asks of a host that can or cannot inject input.
pub open spec fn control_action(message: MessageView, can_inject: bool) -> Result<
    ControlAction,
    DcErrorView,
> {
    match message {
        MessageView::Input(event) => if can_inject {
            Ok(ControlAction::Inject(event))
        } else {
            Err(DcErrorView::Unsupported("remote input injection requires Windows Host"@))
        },
        MessageView::Close => Ok(ControlAction::Stop),
        _ => Ok(ControlAction::Continue),
    }
}

/// What a message of the viewer changes.
pub open spec fn controlled(control: ControlView, message: MessageView) -> ControlView {
    match message {
        MessageView::KeyframeRequest { .. } => control.with_request(),
        MessageView::KeyframeAck { .. } => ControlView { recovery_pending: false, ..control },
        MessageView::RateHint { bitrate, frames_per_second } => control.with_rate(
            bitrate,
            frames_per_second,
        ),
        MessageView::Close => ControlView { shutdown: true, ..control },
        _ => control,
    }
}

/// Takes a message of the viewer.
pub fn receive_host_input(
    control: &mut StreamControl,
    message: &WireMessage,
    can_inject: bool,
) -> (result: Result<ControlAction, DcError>)
    ensures
        final(control)@ == controlled(old(control)@, message@),
        match result {
            Ok(action) => control_action(message@, can_inject) == Ok::<ControlAction, DcErrorView>(
                action,
            ),
            Err(error) => control_action(message@, can_inject) == Err::<
                ControlAction,
                DcErrorView,
            >(error@),
        },
{
    match message {
        WireMessage::Input(event) => {
            if can_inject {
                Ok(ControlAction::Inject(*event))
            } else {
                Err(DcError::unsupported("remote input injection requires Windows Host"))
            }
        },
        WireMessage::KeyframeRequest { .. } => {
            let _ = control.request_keyframe();
            Ok(ControlAction::Continue)
        },
        WireMessage::KeyframeAck { .. } => {
            control.acknowledge_keyframe();
            Ok(ControlAction::Continue)
        },
        WireMessage::RateHint { bitrate, frames_per_second } => {
            control.update_rate(*bitrate, *frames_per_second);
            Ok(ControlAction::Continue)
        },
        WireMessage::Close => {
            control.shut_down();
            Ok(ControlAction::Stop)
        },
        _ => Ok(ControlAction::Continue),
    }
}

/// Keyframes and cursors go over the reliable stream to a viewer that knows it, and nothing else does;
/// while such a viewer waits for a keyframe, other pictures are withheld.
pub proof fn law_keyframes_go_reliably(
    features: MediaFeatures,
    control: ControlView,
    frame: EncodedView,
    max_datagram_size: nat,
)
    ensures
        ({
            let action = sending(features, control, frame, max_datagram_size);
            let keyframe = frame.message is Video && frame.message->Video_keyframe;
            &&& features.hybrid_video && (keyframe || frame.message is Cursor) ==> action is Ok
                && action->Ok_0 is Reliable
            &&& features.hybrid_video && frame.message is Cursor
                ==> !action->Ok_0->Reliable_barrier
            &&& features.hybrid_video && keyframe ==> action->Ok_0->Reliable_barrier
                == frame.reliable_barrier
            &&& action is Ok && action->Ok_0 is Reliable ==> features.hybrid_video && (keyframe
                || frame.message is Cursor)
            &&& !features.hybrid_video && frame.message is Cursor ==> action is Err
            &&& !(frame.message is Cursor) && !keyframe && features.hybrid_video
                && control.recovery_pending ==> action is Ok && action->Ok_0 is Withhold
            &&& action is Ok && action->Ok_0 is Withhold ==> features.hybrid_video
                && control.recovery_pending && !keyframe && !(frame.message is Cursor)
        }),
{
}

/// What goes as datagrams is the whole message, cut at its units for a viewer that knows them. Only a
/// viewer that does not gets no picture of more than ninety-six datagrams, unless it is a keyframe;
/// then the rates are lowered instead, and a keyframe asks for its own acknowledgement.
pub proof fn law_datagrams_hold_the_message(
    features: MediaFeatures,
    control: ControlView,
    frame: EncodedView,
    max_datagram_size: nat,
)
    requires
        !(frame.message is Cursor),
        !features.hybrid_video || (!control.recovery_pending && !(frame.message is Video
            && frame.message->Video_keyframe)),
    ensures
        ({
            let action = sending(features, control, frame, max_datagram_size);
            let parts = fragments_of(features, frame.message, max_datagram_size);
            let keyframe = frame.message is Video && frame.message->Video_keyframe;
            let refused = !features.h264_nal_datagrams && !keyframe && parts->Ok_0.len() > 96;
            &&& parts is Err ==> action is Err && action->Err_0 == parts->Err_0
            &&& parts is Ok && !refused ==> action == Ok::<SendActionView, DcErrorView>(
                SendActionView::Datagrams { fragments: parts->Ok_0, acknowledge: keyframe },
            )
            &&& parts is Ok && refused ==> action is Ok && action->Ok_0 is Oversized
                && action->Ok_0->count == parts->Ok_0.len() && after_sending(control, action->Ok_0)
                == control.with_lower_request() && (action->Ok_0->rates is Some
                <==> control.with_lower_request() != control)
            &&& action is Ok && !(action->Ok_0 is Oversized) ==> after_sending(
                control,
                action->Ok_0,
            ) == control
        }),
{
}

/// Only pictures of H.264 are cut at their units, and only for a viewer that knows that.
pub proof fn law_only_known_units_are_cut(features: MediaFeatures, message: MessageView)
    ensures
        cut_at_units(features, message) <==> features.h264_nal_datagrams && message is Video
            && message->Video_codec == 1,
{
}

/// What a viewer's message does to the stream: a request for a keyframe is noted, an acknowledgement
/// ends the wait, a rate is taken, and the end of the session ends the stream. Input goes to the
/// desktop where the host can inject it, and changes nothing in the stream.
pub proof fn law_messages_control_the_stream(
    control: ControlView,
    message: MessageView,
    can_inject: bool,
)
    ensures
        message is KeyframeRequest ==> controlled(control, message) == control.with_request(),
        message is KeyframeAck ==> !controlled(control, message).recovery_pending && controlled(
            control,
            message,
        ).keyframe_requested == control.keyframe_requested && controlled(
            control,
            message,
        ).target_bitrate == control.target_bitrate && controlled(control, message).shutdown
            == control.shutdown,
        message is RateHint ==> controlled(control, message) == control.with_rate(
            message->bitrate,
            message->frames_per_second,
        ),
        message is Close ==> controlled(control, message).shutdown,
        message is Close <==> control_action(message, can_inject) == Ok::<
            ControlAction,
            DcErrorView,
        >(ControlAction::Stop),
        !(message is KeyframeRequest || message is KeyframeAck || message is RateHint
            || message is Close) ==> controlled(control, message) == control,
        message matches MessageView::Input(event) ==> (if can_inject {
            control_action(message, can_inject) == Ok::<ControlAction, DcErrorView>(
                ControlAction::Inject(event),
            )
        } else {
            control_action(message, can_inject) is Err
        }),
        !(message is Input) && !(message is Close) ==> control_action(message, can_inject) == Ok::<
            ControlAction,
            DcErrorView,
        >(ControlAction::Continue),
{
}

} // verus!
