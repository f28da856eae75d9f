//! What happens to frames and cursors on their way into the stream.
use crate::desktop::datagram::{media_sequence, media_sequence_of};
use crate::error::{DcError, DcErrorView};
use crate::media::frame::{
    copy_metadata, CursorShape, CursorShapeKind, CursorShapeView, CursorUpdate, CursorUpdateView,
    FrameView, PixelFormat, VideoFrame,
};
use crate::protocol::types::{CursorShapeView as WireShapeView, MessageView};
use crate::protocol::{CursorShape as WireCursorShape, WireMessage};
use crate::stream::profile::RateProfile;
use vstd::arithmetic::div_mod::lemma_fundamental_div_mod_converse;
use vstd::prelude::*;
use vstd::slice::slice_to_vec;

verus! {

/// Whether a buffer shows nothing but black.
pub open spec fn effectively_zero(data: Seq<u8>) -> bool {
    forall|i: int| 0 <= i < data.len() ==> #[trigger] data[i] <= 4
}

/// Whether a frame shows nothing but black, as a screen does that is still being started.
pub fn is_effectively_zero_frame(frame: &VideoFrame) -> (result: bool)
    ensures
        result == effectively_zero(frame@.data),
{
    let data = frame.data();
    let mut index: usize = 0;
    while index < data.len()
        invariant
            index <= data@.len(),
            data@ == frame@.data,
            forall|i: int| 0 <= i < index ==> #[trigger] data@[i] <= 4,
        decreases data@.len() - index,
    {
        if data[index] > 4 {
            assert(frame@.data[index as int] > 4);
            return false;
        }
        index = index + 1;
    }
    true
}

/// A byte of a row after its color was reduced: blue, green and red keep the bits of their mask,
/// everything else stays.
pub open spec fn masked_byte(byte: u8, column: int, row_bytes: int, masks: Seq<u8>) -> u8 {
    if column < row_bytes && column % 4 < 3 {
        byte & masks[column % 4]
    } else {
        byte
    }
}

/// A BGRA buffer after its colors were reduced.
pub open spec fn masked_data(data: Seq<u8>, stride: int, row_bytes: int, masks: Seq<u8>) -> Seq<u8> {
    Seq::new(data.len(), |i: int| masked_byte(data[i], i % stride, row_bytes, masks))
}

/// A frame as it is sent under a profile.
pub open spec fn network_frame(frame: FrameView, masks: Seq<u8>) -> FrameView {
    FrameView {
        data: masked_data(
            frame.data,
            frame.layout.stride() as int,
            4 * frame.layout.width(),
            masks,
        ),
        ..frame
    }
}

/// Reduces the colors of a captured frame to the depth of a profile. Geometry and edges stay:
/// only color channels are quantized, because spatial filtering makes small text hard to read.
pub fn prepare_network_frame(frame: VideoFrame, profile: RateProfile) -> (result: Result<
    VideoFrame,
    DcError,
>)
    ensures
        match result {
            Ok(prepared) => {
                &&& frame@.layout.pixel_format() == PixelFormat::Bgra32
                &&& prepared@ == network_frame(frame@, profile.color_masks@)
                &&& prepared@.facts()
            },
            Err(error) => {
                &&& frame@.layout.pixel_format() != PixelFormat::Bgra32
                &&& error@ == DcErrorView::Unsupported(
                    "network color-depth reduction currently requires BGRA32 input"@,
                )
            },
        },
{
    let layout = frame.layout();
    if layout.pixel_format() != PixelFormat::Bgra32 {
        return Err(
            DcError::unsupported("network color-depth reduction currently requires BGRA32 input"),
        );
    }
    let metadata = copy_metadata(frame.metadata());
    let sequence: u64 = frame.sequence();
    let timestamp = frame.timestamp();
    let stride: usize = layout.stride();
    let row_bytes: usize = layout.size().width() as usize * 4;
    let ghost before = frame@.data;
    let mut data = frame.into_data();
    let mut index: usize = 0;
    let mut column: usize = 0;
    let ghost mut row: int = 0;
    while index < data.len()
        invariant
            index <= data@.len(),
            data@.len() == before.len(),
            0 < row_bytes <= stride,
            column < stride,
            index == row * stride + column,
            forall|i: int|
                0 <= i < index ==> #[trigger] data@[i] == masked_byte(
                    before[i],
                    i % (stride as int),
                    row_bytes as int,
                    profile.color_masks@,
                ),
            forall|i: int| index <= i < before.len() ==> #[trigger] data@[i] == before[i],
        decreases data@.len() - index,
    {
        proof {
            lemma_fundamental_div_mod_converse(
                index as int,
                stride as int,
                row,
                column as int,
            );
        }
        if column < row_bytes && column % 4 < 3 {
            let byte: u8 = data[index] & profile.color_masks[column % 4];
            data.set(index, byte);
        }
        index = index + 1;
        if column + 1 < stride {
            column = column + 1;
        } else {
            proof {
                assert((row + 1) * stride == row * stride + stride) by (nonlinear_arith);
                row = row + 1;
            }
            column = 0;
        }
    }
    assert(data@ =~= masked_data(
        before,
        stride as int,
        row_bytes as int,
        profile.color_masks@,
    ));
    VideoFrame::new(sequence, timestamp, layout, data)?.with_metadata(metadata)
}

/// The number of a picture or of a region update in the stream.
pub fn video_sequence(message: &WireMessage) -> (result: Option<u64>)
    ensures
        result == media_sequence_of(message@),
{
    media_sequence(message)
}

/// Whether a message carries a picture that can be decoded on its own.
pub open spec fn keyframe_message(message: MessageView) -> bool {
    message matches MessageView::Video { keyframe, .. } && keyframe
}

/// Whether a message carries a picture that can be decoded on its own.
pub fn is_keyframe_message(message: &WireMessage) -> (result: bool)
    ensures
        result == keyframe_message(message@),
{
    match message {
        WireMessage::Video { keyframe, .. } => *keyframe,
        _ => false,
    }
}

/// The number that stands for a kind of cursor in messages.
pub open spec fn cursor_kind(kind: CursorShapeKind) -> u8 {
    match kind {
        CursorShapeKind::Monochrome => 1,
        CursorShapeKind::Color => 2,
        CursorShapeKind::MaskedColor => 4,
    }
}

/// A cursor shape as it stands in messages.
pub open spec fn wire_shape(shape: CursorShapeView) -> WireShapeView {
    WireShapeView {
        kind: cursor_kind(shape.kind),
        width: shape.width,
        height: shape.height,
        hotspot_x: shape.hotspot_x,
        hotspot_y: shape.hotspot_y,
        pitch: shape.pitch,
        data: shape.data,
    }
}

/// The message that reports a cursor.
pub open spec fn cursor_message(sequence: u64, cursor: CursorUpdateView) -> MessageView {
    MessageView::Cursor {
        sequence,
        visible: cursor.visible,
        x: cursor.x,
        y: cursor.y,
        shape: match cursor.shape {
            Some(shape) => Some(wire_shape(shape)),
            None => None,
        },
    }
}

fn shape_to_wire(shape: &CursorShape) -> (result: WireCursorShape)
    ensures
        result@ == wire_shape(shape@),
{
    WireCursorShape {
        kind: match shape.kind {
            CursorShapeKind::Monochrome => 1,
            CursorShapeKind::Color => 2,
            CursorShapeKind::MaskedColor => 4,
        },
        width: shape.width,
        height: shape.height,
        hotspot_x: shape.hotspot_x,
        hotspot_y: shape.hotspot_y,
        pitch: shape.pitch,
        data: slice_to_vec(shape.data.as_slice()),
    }
}

/// The message that reports a cursor.
pub fn cursor_to_message(sequence: u64, cursor: &CursorUpdate) -> (message: WireMessage)
    ensures
        message@ == cursor_message(sequence, cursor@),
{
    let shape = match &cursor.shape {
        Some(shape) => Some(shape_to_wire(shape)),
        None => None,
    };
    WireMessage::Cursor { sequence, visible: cursor.visible, x: cursor.x, y: cursor.y, shape }
}

/// Reducing colors a second time changes nothing.
pub proof fn law_color_reduction_is_stable(frame: FrameView, masks: Seq<u8>)
    requires
        masks.len() == 3,
    ensures
        network_frame(network_frame(frame, masks), masks) == network_frame(frame, masks),
{
    let once = network_frame(frame, masks).data;
    let twice = network_frame(network_frame(frame, masks), masks).data;
    assert forall|i: int| 0 <= i < once.len() implies twice[i] == once[i] by {
        let byte = frame.data[i];
        let column = i % (frame.layout.stride() as int);
        if column < 4 * frame.layout.width() && column % 4 < 3 {
            let mask = masks[column % 4];
            assert((byte & mask) & mask == byte & mask) by (bit_vector);
        }
    }
    assert(twice =~= once);
}

/// A frame counts as black exactly where no byte of it is above four.
pub proof fn law_black_frames_are_dark(data: Seq<u8>)
    ensures
        effectively_zero(data) ==> forall|i: int| 0 <= i < data.len() ==> #[trigger] data[i] < 5,
        !effectively_zero(data) ==> exists|i: int| 0 <= i < data.len() && #[trigger] data[i] >= 5,
{
}

/// The colors of each pixel keep the bits that their mask keeps: blue by the first mask, green by the
/// second and red by the third. The fourth byte of a pixel and what fills up a row stay as they are,
/// and so does all else of the frame.
pub proof fn law_colors_are_masked_in_place(
    frame: FrameView,
    masks: Seq<u8>,
    x: int,
    y: int,
    part: int,
)
    requires
        frame.facts(),
        frame.layout.pixel_format() == PixelFormat::Bgra32,
        masks.len() == 3,
        0 <= y < frame.layout.height(),
        0 <= x,
        0 <= part < 4,
        4 * x + part < frame.layout.stride(),
    ensures
        ({
            let after = network_frame(frame, masks);
            let at = y * frame.layout.stride() + 4 * x + part;
            &&& 0 <= at < frame.data.len()
            &&& after.data.len() == frame.data.len()
            &&& x < frame.layout.width() && part < 3 ==> after.data[at] == frame.data[at]
                & masks[part]
            &&& x >= frame.layout.width() || part == 3 ==> after.data[at] == frame.data[at]
            &&& after.layout == frame.layout
            &&& after.sequence == frame.sequence
            &&& after.timestamp == frame.timestamp
            &&& after.metadata == frame.metadata
        }),
{
    let stride = frame.layout.stride() as int;
    let height = frame.layout.height() as int;
    let column = 4 * x + part;
    let at = y * stride + column;
    vstd::arithmetic::div_mod::lemma_fundamental_div_mod_converse(at, stride, y, column);
    assert(0 <= at < stride * height) by (nonlinear_arith)
        requires
            0 <= y < height,
            0 <= column < stride,
            at == y * stride + column,
    ;
}

/// The message of a cursor says where it is, whether it is seen and how it looks: kind 1 for a mask,
/// 2 for colors, 4 for colors with a mask.
pub proof fn law_cursor_message_tells_the_cursor(sequence: u64, cursor: CursorUpdateView)
    ensures
        ({
            let message = cursor_message(sequence, cursor);
            &&& message is Cursor
            &&& message->Cursor_sequence == sequence
            &&& message->visible == cursor.visible
            &&& message->Cursor_x == cursor.x
            &&& message->Cursor_y == cursor.y
            &&& message->shape is Some <==> cursor.shape is Some
            &&& cursor.shape matches Some(shape) ==> {
                let told = message->shape->Some_0;
                &&& told.width == shape.width
                &&& told.height == shape.height
                &&& told.hotspot_x == shape.hotspot_x
                &&& told.hotspot_y == shape.hotspot_y
                &&& told.pitch == shape.pitch
                &&& told.data == shape.data
                &&& told.kind == 1 <==> shape.kind == CursorShapeKind::Monochrome
                &&& told.kind == 2 <==> shape.kind == CursorShapeKind::Color
                &&& told.kind == 4 <==> shape.kind == CursorShapeKind::MaskedColor
            }
        }),
{
}

/// A keyframe is a picture that says so.
pub proof fn law_keyframes_say_so(message: MessageView)
    ensures
        keyframe_message(message) <==> message is Video && message->Video_keyframe,
{
}

} // verus!
