//! The binary form of the protocol's messages: what each message is written as, and what a byte
//! string is read as.
//!
//! A message is one byte for its kind and then its fields in order. Numbers are big-endian;
//! byte strings and texts stand behind a 32-bit length.
use crate::bytes::{
    be_bytes, failed, flag_byte, prefixed, prefixed_text, read_bytes, read_flag, read_int,
    read_raw, read_text, read_uint, reading_at, unsigned_pattern, ReadState,
};
use crate::error::DcErrorView;
use crate::protocol::keys::{unknown_key, KeyboardKey};
use crate::protocol::types::{
    Capabilities, CursorShapeView, DesktopRect, Hello, InputEvent, MessageView, ProtocolVersion,
    MAX_DESKTOP_REGIONS, MAX_MESSAGE_SIZE,
};
use crate::text::decimal;
use vstd::prelude::*;
use vstd::utf8::encode_utf8;

verus! {

/// `weight` where the bit is set, else nothing.
#[verifier::opaque]
pub open spec fn weighted(bit: bool, weight: nat) -> nat {
    if bit {
        weight
    } else {
        0
    }
}

/// The bit set of a capability list.
pub open spec fn capability_flags(value: Capabilities) -> nat {
    weighted(value.desktop, 1) + weighted(value.terminal, 2) + weighted(value.command_execution, 4)
        + weighted(value.file_transfer, 8) + weighted(value.clipboard, 16) + weighted(
        value.ssh_compatibility,
        32,
    ) + weighted(value.control_input, 64) + weighted(value.hybrid_video, 128) + weighted(
        value.desktop_optimizations,
        256,
    ) + weighted(value.h264_nal_datagrams, 512)
}

/// The capability list of a bit set; bits that no capability has are ignored.
pub open spec fn capabilities_of(flags: nat) -> Capabilities {
    Capabilities {
        desktop: flags % 2 == 1,
        control_input: flags / 64 % 2 == 1,
        terminal: flags / 2 % 2 == 1,
        command_execution: flags / 4 % 2 == 1,
        file_transfer: flags / 8 % 2 == 1,
        clipboard: flags / 16 % 2 == 1,
        ssh_compatibility: flags / 32 % 2 == 1,
        hybrid_video: flags / 128 % 2 == 1,
        desktop_optimizations: flags / 256 % 2 == 1,
        h264_nal_datagrams: flags / 512 % 2 == 1,
    }
}

pub open spec fn capability_bytes(value: Capabilities) -> Seq<u8> {
    be_bytes(capability_flags(value), 2)
}

pub open spec fn rect_bytes(rect: DesktopRect) -> Seq<u8> {
    be_bytes(rect.x as nat, 4) + (be_bytes(rect.y as nat, 4) + (be_bytes(rect.width as nat, 4)
        + be_bytes(rect.height as nat, 4)))
}

pub open spec fn rects_bytes(rects: Seq<DesktopRect>) -> Seq<u8>
    decreases rects.len(),
{
    if rects.len() == 0 {
        Seq::empty()
    } else {
        rects_bytes(rects.drop_last()) + rect_bytes(rects.last())
    }
}

pub open spec fn shape_bytes(shape: CursorShapeView) -> Seq<u8> {
    seq![shape.kind] + (be_bytes(shape.width as nat, 4) + (be_bytes(shape.height as nat, 4) + (
    be_bytes(shape.hotspot_x as nat, 4) + (be_bytes(shape.hotspot_y as nat, 4) + (be_bytes(
        shape.pitch as nat,
        4,
    ) + prefixed(shape.data))))))
}

pub open spec fn optional_shape_bytes(shape: Option<CursorShapeView>) -> Seq<u8> {
    match shape {
        Some(shape) => seq![1u8] + shape_bytes(shape),
        None => seq![0u8],
    }
}

pub open spec fn event_bytes(event: InputEvent) -> Seq<u8> {
    match event {
        InputEvent::Pointer { x, y, buttons } => seq![1u8] + (be_bytes(unsigned_pattern(x), 4) + (
        be_bytes(unsigned_pattern(y), 4) + seq![buttons])),
        InputEvent::Key { key, pressed } => seq![2u8] + (be_bytes(key.code() as nat, 2)
            + seq![flag_byte(pressed)]),
        InputEvent::Wheel { delta_x, delta_y } => seq![3u8] + (be_bytes(
            unsigned_pattern(delta_x),
            4,
        ) + be_bytes(unsigned_pattern(delta_y), 4)),
    }
}

/// The byte that tells the kind of a message.
pub open spec fn kind_byte(message: MessageView) -> u8 {
    match message {
        MessageView::Hello(_) => 1,
        MessageView::Challenge { .. } => 2,
        MessageView::Authenticate { .. } => 3,
        MessageView::Authenticated { .. } => 4,
        MessageView::Rejected { .. } => 5,
        MessageView::OpenDesktop => 6,
        MessageView::Video { .. } => 7,
        MessageView::Input(_) => 8,
        MessageView::RateHint { .. } => 9,
        MessageView::FileOffer { .. } => 10,
        MessageView::FileChunk { .. } => 11,
        MessageView::FileAck { .. } => 12,
        MessageView::Close => 13,
        MessageView::KeyframeRequest { .. } => 14,
        MessageView::KeyframeAck { .. } => 15,
        MessageView::DesktopUpdate { .. } => 16,
        MessageView::Cursor { .. } => 17,
    }
}

/// The fields of a message behind its kind.
pub open spec fn body_bytes(message: MessageView) -> Seq<u8> {
    match message {
        MessageView::Hello(hello) => be_bytes(hello.protocol_version.major as nat, 2) + (be_bytes(
            hello.protocol_version.minor as nat,
            2,
        ) + capability_bytes(hello.capabilities)),
        MessageView::Challenge { nonce, salt } => nonce + prefixed_text(salt),
        MessageView::Authenticate { proof } => proof,
        MessageView::Authenticated { permissions } => capability_bytes(permissions),
        MessageView::Rejected { reason } => prefixed_text(reason),
        MessageView::OpenDesktop => Seq::empty(),
        MessageView::Video {
            codec,
            sequence,
            timestamp_millis,
            keyframe,
            width,
            height,
            pixel_format,
            stride,
            data,
        } => seq![codec] + (be_bytes(sequence as nat, 8) + (be_bytes(timestamp_millis as nat, 8) + (
        seq![flag_byte(keyframe)] + (be_bytes(width as nat, 4) + (be_bytes(height as nat, 4) + (
        seq![pixel_format] + (be_bytes(stride as nat, 4) + prefixed(data)))))))),
        MessageView::Input(event) => event_bytes(event),
        MessageView::RateHint { bitrate, frames_per_second } => be_bytes(bitrate as nat, 4)
            + be_bytes(frames_per_second as nat, 2),
        MessageView::KeyframeRequest { last_sequence } => be_bytes(last_sequence as nat, 8),
        MessageView::KeyframeAck { sequence } => be_bytes(sequence as nat, 8),
        MessageView::DesktopUpdate {
            sequence,
            timestamp_millis,
            desktop_width,
            desktop_height,
            encoding,
            regions,
            data,
        } => be_bytes(sequence as nat, 8) + (be_bytes(timestamp_millis as nat, 8) + (be_bytes(
            desktop_width as nat,
            4,
        ) + (be_bytes(desktop_height as nat, 4) + (seq![encoding] + (be_bytes(regions.len(), 2) + (
        rects_bytes(regions) + prefixed(data))))))),
        MessageView::Cursor { sequence, visible, x, y, shape } => be_bytes(sequence as nat, 8) + (
        seq![flag_byte(visible)] + (be_bytes(unsigned_pattern(x), 4) + (be_bytes(
            unsigned_pattern(y),
            4,
        ) + optional_shape_bytes(shape)))),
        MessageView::FileOffer { transfer_id, name, size, chunk_size, sha256 } => transfer_id + (
        prefixed_text(name) + (be_bytes(size as nat, 8) + (be_bytes(chunk_size as nat, 4)
            + sha256))),
        MessageView::FileChunk { transfer_id, offset, data, sha256 } => transfer_id + (be_bytes(
            offset as nat,
            8,
        ) + (prefixed(data) + sha256)),
        MessageView::FileAck { transfer_id, next_offset } => transfer_id + be_bytes(
            next_offset as nat,
            8,
        ),
        MessageView::Close => Seq::empty(),
    }
}

/// The binary form of a message.
pub open spec fn message_bytes(message: MessageView) -> Seq<u8> {
    seq![kind_byte(message)] + body_bytes(message)
}

/// The length of the one length-prefixed field of a message, or zero.
pub open spec fn payload_len(message: MessageView) -> nat {
    match message {
        MessageView::Challenge { salt, .. } => encode_utf8(salt).len(),
        MessageView::Rejected { reason } => encode_utf8(reason).len(),
        MessageView::Video { data, .. } => data.len(),
        MessageView::DesktopUpdate { data, .. } => data.len(),
        MessageView::Cursor { shape, .. } => match shape {
            Some(shape) => shape.data.len(),
            None => 0,
        },
        MessageView::FileOffer { name, .. } => encode_utf8(name).len(),
        MessageView::FileChunk { data, .. } => data.len(),
        _ => 0,
    }
}

/// Whether the number of regions of a desktop update is out of range.
pub open spec fn bad_region_count(message: MessageView) -> bool {
    message matches MessageView::DesktopUpdate { regions, .. } && (regions.len() == 0
        || regions.len() > MAX_DESKTOP_REGIONS)
}

/// Why a message cannot be written, if it cannot.
pub open spec fn encode_failure(message: MessageView) -> Option<DcErrorView> {
    if bad_region_count(message) {
        Some(DcErrorView::InvalidInput("desktop update has an invalid region count"@))
    } else if payload_len(message) > u32::MAX {
        Some(DcErrorView::InvalidInput("payload is too large"@))
    } else if message_bytes(message).len() > MAX_MESSAGE_SIZE {
        Some(DcErrorView::InvalidInput("protocol message exceeds size limit"@))
    } else {
        None
    }
}

pub open spec fn read_capabilities(input: Seq<u8>, state: ReadState) -> (Capabilities, ReadState) {
    let (flags, state) = read_uint(input, state, 2);
    (capabilities_of(flags), state)
}

pub open spec fn read_hello(input: Seq<u8>, state: ReadState) -> (MessageView, ReadState) {
    let (major, state) = read_uint(input, state, 2);
    let (minor, state) = read_uint(input, state, 2);
    let (capabilities, state) = read_capabilities(input, state);
    let protocol_version = ProtocolVersion { major: major as u16, minor: minor as u16 };
    (MessageView::Hello(Hello { protocol_version, capabilities }), state)
}

pub open spec fn read_challenge(input: Seq<u8>, state: ReadState) -> (MessageView, ReadState) {
    let (nonce, state) = read_raw(input, state, 32);
    let (salt, state) = read_text(input, state);
    (MessageView::Challenge { nonce, salt }, state)
}

pub open spec fn read_authenticate(input: Seq<u8>, state: ReadState) -> (MessageView, ReadState) {
    let (proof_bytes, state) = read_raw(input, state, 32);
    (MessageView::Authenticate { proof: proof_bytes }, state)
}

pub open spec fn read_authenticated(input: Seq<u8>, state: ReadState) -> (MessageView, ReadState) {
    let (permissions, state) = read_capabilities(input, state);
    (MessageView::Authenticated { permissions }, state)
}

pub open spec fn read_rejected(input: Seq<u8>, state: ReadState) -> (MessageView, ReadState) {
    let (reason, state) = read_text(input, state);
    (MessageView::Rejected { reason }, state)
}

pub open spec fn read_video(input: Seq<u8>, state: ReadState) -> (MessageView, ReadState) {
    let (codec, state) = read_uint(input, state, 1);
    let (sequence, state) = read_uint(input, state, 8);
    let (timestamp_millis, state) = read_uint(input, state, 8);
    let (keyframe, state) = read_flag(input, state);
    let (width, state) = read_uint(input, state, 4);
    let (height, state) = read_uint(input, state, 4);
    let (pixel_format, state) = read_uint(input, state, 1);
    let (stride, state) = read_uint(input, state, 4);
    let (data, state) = read_bytes(input, state);
    (
        MessageView::Video {
            codec: codec as u8,
            sequence: sequence as u64,
            timestamp_millis: timestamp_millis as u64,
            keyframe,
            width: width as u32,
            height: height as u32,
            pixel_format: pixel_format as u8,
            stride: stride as u32,
            data,
        },
        state,
    )
}

pub open spec fn read_pointer(input: Seq<u8>, state: ReadState) -> (InputEvent, ReadState) {
    let (x, state) = read_int(input, state);
    let (y, state) = read_int(input, state);
    let (buttons, state) = read_uint(input, state, 1);
    (InputEvent::Pointer { x, y, buttons: buttons as u8 }, state)
}

pub open spec fn read_key(input: Seq<u8>, state: ReadState) -> (InputEvent, ReadState) {
    let (code, state) = read_uint(input, state, 2);
    let key = KeyboardKey::of_code(code as u16);
    let state = if state.failure is None && key is None {
        failed(state, unknown_key(code as u16))
    } else {
        state
    };
    let (pressed, state) = read_flag(input, state);
    (InputEvent::Key { key: key->Some_0, pressed }, state)
}

pub open spec fn read_wheel(input: Seq<u8>, state: ReadState) -> (InputEvent, ReadState) {
    let (delta_x, state) = read_int(input, state);
    let (delta_y, state) = read_int(input, state);
    (InputEvent::Wheel { delta_x, delta_y }, state)
}

pub open spec fn read_event(input: Seq<u8>, state: ReadState) -> (InputEvent, ReadState) {
    let (kind, state) = read_uint(input, state, 1);
    if kind == 1 {
        read_pointer(input, state)
    } else if kind == 2 {
        read_key(input, state)
    } else if kind == 3 {
        read_wheel(input, state)
    } else if state.failure is None {
        (
            InputEvent::Wheel { delta_x: 0, delta_y: 0 },
            failed(state, DcErrorView::Codec("unknown input event"@)),
        )
    } else {
        (InputEvent::Wheel { delta_x: 0, delta_y: 0 }, state)
    }
}

pub open spec fn read_rate_hint(input: Seq<u8>, state: ReadState) -> (MessageView, ReadState) {
    let (bitrate, state) = read_uint(input, state, 4);
    let (frames_per_second, state) = read_uint(input, state, 2);
    (
        MessageView::RateHint {
            bitrate: bitrate as u32,
            frames_per_second: frames_per_second as u16,
        },
        state,
    )
}

pub open spec fn read_rect(input: Seq<u8>, state: ReadState) -> (DesktopRect, ReadState) {
    let (x, state) = read_uint(input, state, 4);
    let (y, state) = read_uint(input, state, 4);
    let (width, state) = read_uint(input, state, 4);
    let (height, state) = read_uint(input, state, 4);
    (
        DesktopRect { x: x as u32, y: y as u32, width: width as u32, height: height as u32 },
        state,
    )
}

pub open spec fn read_rects(input: Seq<u8>, state: ReadState, count: nat) -> (
    Seq<DesktopRect>,
    ReadState,
)
    decreases count,
{
    if count == 0 {
        (Seq::empty(), state)
    } else {
        let (rects, state) = read_rects(input, state, (count - 1) as nat);
        let (rect, state) = read_rect(input, state);
        (rects.push(rect), state)
    }
}

pub open spec fn read_desktop_update(input: Seq<u8>, state: ReadState) -> (
    MessageView,
    ReadState,
) {
    let (sequence, state) = read_uint(input, state, 8);
    let (timestamp_millis, state) = read_uint(input, state, 8);
    let (desktop_width, state) = read_uint(input, state, 4);
    let (desktop_height, state) = read_uint(input, state, 4);
    let (encoding, state) = read_uint(input, state, 1);
    let (count, state) = read_uint(input, state, 2);
    let state = if state.failure is None && (count == 0 || count > MAX_DESKTOP_REGIONS) {
        failed(state, DcErrorView::Codec("desktop update has an invalid region count"@))
    } else {
        state
    };
    let (regions, state) = read_rects(input, state, count);
    let (data, state) = read_bytes(input, state);
    (
        MessageView::DesktopUpdate {
            sequence: sequence as u64,
            timestamp_millis: timestamp_millis as u64,
            desktop_width: desktop_width as u32,
            desktop_height: desktop_height as u32,
            encoding: encoding as u8,
            regions,
            data,
        },
        state,
    )
}

pub open spec fn read_shape(input: Seq<u8>, state: ReadState) -> (CursorShapeView, ReadState) {
    let (kind, state) = read_uint(input, state, 1);
    let (width, state) = read_uint(input, state, 4);
    let (height, state) = read_uint(input, state, 4);
    let (hotspot_x, state) = read_uint(input, state, 4);
    let (hotspot_y, state) = read_uint(input, state, 4);
    let (pitch, state) = read_uint(input, state, 4);
    let (data, state) = read_bytes(input, state);
    (
        CursorShapeView {
            kind: kind as u8,
            width: width as u32,
            height: height as u32,
            hotspot_x: hotspot_x as u32,
            hotspot_y: hotspot_y as u32,
            pitch: pitch as u32,
            data,
        },
        state,
    )
}

pub open spec fn read_cursor(input: Seq<u8>, state: ReadState) -> (MessageView, ReadState) {
    let (sequence, state) = read_uint(input, state, 8);
    let (visible, state) = read_flag(input, state);
    let (x, state) = read_int(input, state);
    let (y, state) = read_int(input, state);
    let (has_shape, state) = read_flag(input, state);
    if has_shape {
        let (shape, state) = read_shape(input, state);
        (
            MessageView::Cursor { sequence: sequence as u64, visible, x, y, shape: Some(shape) },
            state,
        )
    } else {
        (MessageView::Cursor { sequence: sequence as u64, visible, x, y, shape: None }, state)
    }
}

pub open spec fn read_file_offer(input: Seq<u8>, state: ReadState) -> (MessageView, ReadState) {
    let (transfer_id, state) = read_raw(input, state, 16);
    let (name, state) = read_text(input, state);
    let (size, state) = read_uint(input, state, 8);
    let (chunk_size, state) = read_uint(input, state, 4);
    let (sha256, state) = read_raw(input, state, 32);
    (
        MessageView::FileOffer {
            transfer_id,
            name,
            size: size as u64,
            chunk_size: chunk_size as u32,
            sha256,
        },
        state,
    )
}

pub open spec fn read_file_chunk(input: Seq<u8>, state: ReadState) -> (MessageView, ReadState) {
    let (transfer_id, state) = read_raw(input, state, 16);
    let (offset, state) = read_uint(input, state, 8);
    let (data, state) = read_bytes(input, state);
    let (sha256, state) = read_raw(input, state, 32);
    (MessageView::FileChunk { transfer_id, offset: offset as u64, data, sha256 }, state)
}

pub open spec fn read_file_ack(input: Seq<u8>, state: ReadState) -> (MessageView, ReadState) {
    let (transfer_id, state) = read_raw(input, state, 16);
    let (next_offset, state) = read_uint(input, state, 8);
    (MessageView::FileAck { transfer_id, next_offset: next_offset as u64 }, state)
}

/// The failure for a kind byte that no message has.
pub open spec fn unknown_kind(kind: u8) -> DcErrorView {
    DcErrorView::Codec("unknown protocol message type "@ + decimal(kind as nat))
}

/// Reads the fields of a message of the given kind, which start at the state's position.
pub open spec fn read_body(kind: u8, input: Seq<u8>, state: ReadState) -> (MessageView, ReadState) {
    if kind == 1 {
        read_hello(input, state)
    } else if kind == 2 {
        read_challenge(input, state)
    } else if kind == 3 {
        read_authenticate(input, state)
    } else if kind == 4 {
        read_authenticated(input, state)
    } else if kind == 5 {
        read_rejected(input, state)
    } else if kind == 6 {
        (MessageView::OpenDesktop, state)
    } else if kind == 7 {
        read_video(input, state)
    } else if kind == 8 {
        let (event, state) = read_event(input, state);
        (MessageView::Input(event), state)
    } else if kind == 9 {
        read_rate_hint(input, state)
    } else if kind == 10 {
        read_file_offer(input, state)
    } else if kind == 11 {
        read_file_chunk(input, state)
    } else if kind == 12 {
        read_file_ack(input, state)
    } else if kind == 13 {
        (MessageView::Close, state)
    } else if kind == 14 {
        let (last_sequence, state) = read_uint(input, state, 8);
        (MessageView::KeyframeRequest { last_sequence: last_sequence as u64 }, state)
    } else if kind == 15 {
        let (sequence, state) = read_uint(input, state, 8);
        (MessageView::KeyframeAck { sequence: sequence as u64 }, state)
    } else if kind == 16 {
        read_desktop_update(input, state)
    } else if kind == 17 {
        read_cursor(input, state)
    } else {
        (MessageView::Close, failed(state, unknown_kind(kind)))
    }
}

/// The message that a byte string is read as, or the failure. The whole byte string has to be
/// used up.
pub open spec fn parse_message(input: Seq<u8>) -> Result<MessageView, DcErrorView> {
    if input.len() == 0 || input.len() > MAX_MESSAGE_SIZE {
        Err(DcErrorView::Codec("invalid protocol message length"@))
    } else {
        let (message, state) = read_body(input[0], input, reading_at(1));
        match state.failure {
            Some(error) => Err(error),
            None => if state.at != input.len() {
                Err(DcErrorView::Codec("trailing bytes in protocol message"@))
            } else {
                Ok(message)
            },
        }
    }
}

} // verus!
