//! What holds of writing and reading messages together.
use crate::bytes::{
    be_bytes, byte_range, failed, flag_byte, law_be_bytes_read_back, lemma_be_bytes_len,
    lemma_byte_range, lemma_signed_pattern, prefixed, prefixed_text, read_bytes, read_flag,
    read_int, read_raw, read_text, read_uint, reading_at, unsigned_pattern, ReadState,
};
use crate::error::DcErrorView;
use crate::protocol::format::{
    bad_region_count, body_bytes, capabilities_of, capability_bytes, capability_flags,
    encode_failure, event_bytes, kind_byte, message_bytes, optional_shape_bytes, parse_message,
    payload_len, read_body, read_capabilities, read_cursor, read_desktop_update, read_event,
    read_rect, read_rects, read_shape, read_video, rect_bytes, rects_bytes, shape_bytes, weighted,
};
use crate::protocol::keys::law_key_of_code;
use crate::protocol::types::{
    Capabilities, CursorShapeView, DesktopRect, InputEvent, MessageView, WireMessage,
    MAX_DESKTOP_REGIONS, MAX_MESSAGE_SIZE,
};
use vstd::prelude::*;
use vstd::utf8::encode_utf8;

verus! {

/// The lowest bit of a bit set, and the bits above it.
proof fn lemma_lowest_bit(bit: bool, weight: nat, above: nat)
    ensures
        weighted(bit, weight) == weight * weighted(bit, 1),
        weighted(bit, 1) <= 1,
        ((weighted(bit, 1) + 2 * above) % 2 == 1) == bit,
        (weighted(bit, 1) + 2 * above) / 2 == above,
{
    reveal(weighted);
    assert(weight * 1 == weight && weight * 0 == 0) by (nonlinear_arith);
}

/// The contents of the bit set of a capability list are that list.
pub proof fn law_capabilities_read_back(value: Capabilities)
    ensures
        capability_flags(value) < 1024,
        capabilities_of(capability_flags(value)) == value,
{
    lemma_lowest_bit(value.h264_nal_datagrams, 512, 0nat);
    let from9 = weighted(value.h264_nal_datagrams, 1) + 2 * 0nat;
    lemma_lowest_bit(value.desktop_optimizations, 256, from9);
    let from8 = weighted(value.desktop_optimizations, 1) + 2 * from9;
    lemma_lowest_bit(value.hybrid_video, 128, from8);
    let from7 = weighted(value.hybrid_video, 1) + 2 * from8;
    lemma_lowest_bit(value.control_input, 64, from7);
    let from6 = weighted(value.control_input, 1) + 2 * from7;
    lemma_lowest_bit(value.ssh_compatibility, 32, from6);
    let from5 = weighted(value.ssh_compatibility, 1) + 2 * from6;
    lemma_lowest_bit(value.clipboard, 16, from5);
    let from4 = weighted(value.clipboard, 1) + 2 * from5;
    lemma_lowest_bit(value.file_transfer, 8, from4);
    let from3 = weighted(value.file_transfer, 1) + 2 * from4;
    lemma_lowest_bit(value.command_execution, 4, from3);
    let from2 = weighted(value.command_execution, 1) + 2 * from3;
    lemma_lowest_bit(value.terminal, 2, from2);
    let from1 = weighted(value.terminal, 1) + 2 * from2;
    lemma_lowest_bit(value.desktop, 1, from1);
    let from0 = weighted(value.desktop, 1) + 2 * from1;
    let flags = capability_flags(value);
    assert(flags == from0);
    assert(flags / 2 == from1);
    assert(flags / 4 == from2);
    assert(flags / 8 == from3);
    assert(flags / 16 == from4);
    assert(flags / 32 == from5);
    assert(flags / 64 == from6);
    assert(flags / 128 == from7);
    assert(flags / 256 == from8);
    assert(flags / 512 == from9);
}

/// `bytes` stand at position `at` of the input, followed by `rest`.
spec fn stands(input: Seq<u8>, at: nat, bytes: Seq<u8>, rest: Seq<u8>) -> bool {
    &&& input.len() <= usize::MAX
    &&& at <= input.len()
    &&& input.skip(at as int) == bytes + rest
}

proof fn lemma_stands(input: Seq<u8>, at: nat, bytes: Seq<u8>, rest: Seq<u8>)
    requires
        stands(input, at, bytes, rest),
    ensures
        at + bytes.len() <= input.len(),
        input.subrange(at as int, (at + bytes.len()) as int) == bytes,
        stands(input, at + bytes.len(), Seq::empty(), rest),
        read_raw(input, reading_at(at), bytes.len()) == (bytes, reading_at(at + bytes.len())),
{
    let whole = bytes + rest;
    assert(input.skip(at as int).len() == input.len() - at);
    assert(whole.len() == bytes.len() + rest.len());
    assert(input.subrange(at as int, (at + bytes.len()) as int) =~= bytes) by {
        assert forall|i: int| 0 <= i < bytes.len() implies input[at + i] == bytes[i] by {
            assert(input.skip(at as int)[i] == input[at + i]);
            assert(whole[i] == bytes[i]);
        }
    }
    assert(input.skip((at + bytes.len()) as int) =~= rest) by {
        assert forall|i: int| 0 <= i < rest.len() implies input[at + bytes.len() + i] == rest[i] by {
            assert(input.skip(at as int)[bytes.len() + i] == input[at + bytes.len() + i]);
            assert(whole[bytes.len() + i] == rest[i]);
        }
    }
    assert(Seq::<u8>::empty() + rest =~= rest);
}

/// Regroups what follows a position: the front part and all that is behind it.
proof fn lemma_regroup(input: Seq<u8>, at: nat, front: Seq<u8>, back: Seq<u8>, rest: Seq<u8>)
    requires
        stands(input, at, front + back, rest),
    ensures
        stands(input, at, front, back + rest),
        stands(input, at + front.len(), back, rest),
{
    assert((front + back) + rest =~= front + (back + rest));
    lemma_stands(input, at, front, back + rest);
    assert(Seq::<u8>::empty() + (back + rest) =~= back + rest);
}

proof fn lemma_uint(input: Seq<u8>, at: nat, value: nat, width: nat, back: Seq<u8>, rest: Seq<u8>)
    requires
        stands(input, at, be_bytes(value, width) + back, rest),
        value < byte_range(width),
    ensures
        read_uint(input, reading_at(at), width) == (value, reading_at(at + width)),
        stands(input, at + width, back, rest),
{
    law_be_bytes_read_back(value, width);
    lemma_regroup(input, at, be_bytes(value, width), back, rest);
    lemma_stands(input, at, be_bytes(value, width), back + rest);
}

proof fn lemma_byte(input: Seq<u8>, at: nat, value: u8, back: Seq<u8>, rest: Seq<u8>)
    requires
        stands(input, at, seq![value] + back, rest),
    ensures
        read_uint(input, reading_at(at), 1) == (value as nat, reading_at(at + 1)),
        read_flag(input, reading_at(at)) == (value != 0, reading_at(at + 1)),
        stands(input, at + 1, back, rest),
{
    lemma_byte_range();
    reveal_with_fuel(be_bytes, 2);
    assert(be_bytes(value as nat, 1) =~= seq![value]);
    lemma_uint(input, at, value as nat, 1, back, rest);
}

proof fn lemma_int(input: Seq<u8>, at: nat, value: i32, back: Seq<u8>, rest: Seq<u8>)
    requires
        stands(input, at, be_bytes(unsigned_pattern(value), 4) + back, rest),
    ensures
        read_int(input, reading_at(at)) == (value, reading_at(at + 4)),
        stands(input, at + 4, back, rest),
{
    lemma_byte_range();
    lemma_signed_pattern(value);
    lemma_uint(input, at, unsigned_pattern(value), 4, back, rest);
}

proof fn lemma_raw(input: Seq<u8>, at: nat, bytes: Seq<u8>, back: Seq<u8>, rest: Seq<u8>)
    requires
        stands(input, at, bytes + back, rest),
    ensures
        read_raw(input, reading_at(at), bytes.len()) == (bytes, reading_at(at + bytes.len())),
        stands(input, at + bytes.len(), back, rest),
{
    lemma_regroup(input, at, bytes, back, rest);
    lemma_stands(input, at, bytes, back + rest);
}

proof fn lemma_prefixed(input: Seq<u8>, at: nat, bytes: Seq<u8>, back: Seq<u8>, rest: Seq<u8>)
    requires
        stands(input, at, prefixed(bytes) + back, rest),
        bytes.len() <= u32::MAX,
    ensures
        read_bytes(input, reading_at(at)) == (bytes, reading_at(at + 4 + bytes.len())),
        stands(input, at + 4 + bytes.len(), back, rest),
{
    lemma_byte_range();
    assert(prefixed(bytes) + back =~= be_bytes(bytes.len(), 4) + (bytes + back));
    lemma_uint(input, at, bytes.len(), 4, bytes + back, rest);
    lemma_raw(input, at + 4, bytes, back, rest);
}

proof fn lemma_text(input: Seq<u8>, at: nat, text: Seq<char>, back: Seq<u8>, rest: Seq<u8>)
    requires
        stands(input, at, prefixed_text(text) + back, rest),
        encode_utf8(text).len() <= u32::MAX,
    ensures
        read_text(input, reading_at(at)) == (
            text,
            reading_at(at + 4 + encode_utf8(text).len()),
        ),
        stands(input, at + 4 + encode_utf8(text).len(), back, rest),
{
    lemma_prefixed(input, at, encode_utf8(text), back, rest);
    vstd::utf8::encode_utf8_valid_utf8(text);
    vstd::utf8::encode_utf8_decode_utf8(text);
}

proof fn lemma_capabilities(
    input: Seq<u8>,
    at: nat,
    value: Capabilities,
    back: Seq<u8>,
    rest: Seq<u8>,
)
    requires
        stands(input, at, capability_bytes(value) + back, rest),
    ensures
        read_capabilities(input, reading_at(at)) == (value, reading_at(at + 2)),
        stands(input, at + 2, back, rest),
{
    lemma_byte_range();
    law_capabilities_read_back(value);
    lemma_uint(input, at, capability_flags(value), 2, back, rest);
}

proof fn lemma_rect(input: Seq<u8>, at: nat, value: DesktopRect, back: Seq<u8>, rest: Seq<u8>)
    requires
        stands(input, at, rect_bytes(value) + back, rest),
    ensures
        rect_bytes(value).len() == 16,
        read_rect(input, reading_at(at)) == (value, reading_at(at + 16)),
        stands(input, at + 16, back, rest),
{
    lemma_byte_range();
    let b4 = be_bytes(value.height as nat, 4) + back;
    let b3 = be_bytes(value.width as nat, 4) + b4;
    let b2 = be_bytes(value.y as nat, 4) + b3;
    assert(rect_bytes(value) + back =~= be_bytes(value.x as nat, 4) + b2);
    lemma_uint(input, at, value.x as nat, 4, b2, rest);
    lemma_uint(input, at + 4, value.y as nat, 4, b3, rest);
    lemma_uint(input, at + 8, value.width as nat, 4, b4, rest);
    lemma_uint(input, at + 12, value.height as nat, 4, back, rest);
    lemma_be_bytes_len(value.x as nat, 4);
    lemma_be_bytes_len(value.y as nat, 4);
    lemma_be_bytes_len(value.width as nat, 4);
    lemma_be_bytes_len(value.height as nat, 4);
}

proof fn lemma_rects(
    input: Seq<u8>,
    at: nat,
    rects: Seq<DesktopRect>,
    back: Seq<u8>,
    rest: Seq<u8>,
)
    requires
        stands(input, at, rects_bytes(rects) + back, rest),
    ensures
        rects_bytes(rects).len() == 16 * rects.len(),
        read_rects(input, reading_at(at), rects.len()) == (
            rects,
            reading_at(at + 16 * rects.len()),
        ),
        stands(input, at + 16 * rects.len(), back, rest),
    decreases rects.len(),
{
    if rects.len() == 0 {
        assert(rects =~= Seq::empty());
        assert(rects_bytes(rects) + back =~= back);
    } else {
        let front = rects.drop_last();
        let last = rect_bytes(rects.last());
        assert(rects_bytes(rects) + back =~= rects_bytes(front) + (last + back));
        lemma_rects(input, at, front, last + back, rest);
        lemma_rect(input, at + 16 * front.len(), rects.last(), back, rest);
        assert(front.push(rects.last()) =~= rects);
    }
}

proof fn lemma_shape(
    input: Seq<u8>,
    at: nat,
    value: CursorShapeView,
    back: Seq<u8>,
    rest: Seq<u8>,
)
    requires
        stands(input, at, shape_bytes(value) + back, rest),
        value.data.len() <= u32::MAX,
    ensures
        read_shape(input, reading_at(at)) == (value, reading_at(at + 25 + value.data.len())),
        stands(input, at + 25 + value.data.len(), back, rest),
{
    lemma_byte_range();
    let b6 = prefixed(value.data) + back;
    let b5 = be_bytes(value.pitch as nat, 4) + b6;
    let b4 = be_bytes(value.hotspot_y as nat, 4) + b5;
    let b3 = be_bytes(value.hotspot_x as nat, 4) + b4;
    let b2 = be_bytes(value.height as nat, 4) + b3;
    let b1 = be_bytes(value.width as nat, 4) + b2;
    assert(shape_bytes(value) + back =~= seq![value.kind] + b1);
    lemma_byte(input, at, value.kind, b1, rest);
    lemma_uint(input, at + 1, value.width as nat, 4, b2, rest);
    lemma_uint(input, at + 5, value.height as nat, 4, b3, rest);
    lemma_uint(input, at + 9, value.hotspot_x as nat, 4, b4, rest);
    lemma_uint(input, at + 13, value.hotspot_y as nat, 4, b5, rest);
    lemma_uint(input, at + 17, value.pitch as nat, 4, b6, rest);
    lemma_prefixed(input, at + 21, value.data, back, rest);
}

proof fn lemma_event(input: Seq<u8>, at: nat, event: InputEvent, rest: Seq<u8>)
    requires
        stands(input, at, event_bytes(event), rest),
    ensures
        read_event(input, reading_at(at)) == (event, reading_at(at + event_bytes(event).len())),
{
    lemma_byte_range();
    let none = Seq::<u8>::empty();
    match event {
        InputEvent::Pointer { x, y, buttons } => {
            let b2 = be_bytes(unsigned_pattern(y), 4) + (seq![buttons] + none);
            let b1 = be_bytes(unsigned_pattern(x), 4) + b2;
            assert(event_bytes(event) =~= seq![1u8] + b1);
            lemma_byte(input, at, 1, b1, rest);
            lemma_int(input, at + 1, x, b2, rest);
            lemma_int(input, at + 5, y, seq![buttons] + none, rest);
            lemma_byte(input, at + 9, buttons, none, rest);
            lemma_be_bytes_len(unsigned_pattern(x), 4);
            lemma_be_bytes_len(unsigned_pattern(y), 4);
        },
        InputEvent::Key { key, pressed } => {
            let b2 = seq![flag_byte(pressed)] + none;
            let b1 = be_bytes(key.code() as nat, 2) + b2;
            assert(event_bytes(event) =~= seq![2u8] + b1);
            lemma_byte(input, at, 2, b1, rest);
            lemma_uint(input, at + 1, key.code() as nat, 2, b2, rest);
            lemma_byte(input, at + 3, flag_byte(pressed), none, rest);
            law_key_of_code(key);
            lemma_be_bytes_len(key.code() as nat, 2);
        },
        InputEvent::Wheel { delta_x, delta_y } => {
            let b2 = be_bytes(unsigned_pattern(delta_y), 4) + none;
            let b1 = be_bytes(unsigned_pattern(delta_x), 4) + b2;
            assert(event_bytes(event) =~= seq![3u8] + b1);
            lemma_byte(input, at, 3, b1, rest);
            lemma_int(input, at + 1, delta_x, b2, rest);
            lemma_int(input, at + 5, delta_y, none, rest);
            lemma_be_bytes_len(unsigned_pattern(delta_x), 4);
            lemma_be_bytes_len(unsigned_pattern(delta_y), 4);
        },
    }
}

/// The fixed-size fields of a message have their sizes.
pub open spec fn sized(message: MessageView) -> bool {
    match message {
        MessageView::Challenge { nonce, .. } => nonce.len() == 32,
        MessageView::Authenticate { proof: proof_bytes } => proof_bytes.len() == 32,
        MessageView::FileOffer { transfer_id, sha256, .. } => transfer_id.len() == 16
            && sha256.len() == 32,
        MessageView::FileChunk { transfer_id, sha256, .. } => transfer_id.len() == 16
            && sha256.len() == 32,
        MessageView::FileAck { transfer_id, .. } => transfer_id.len() == 16,
        _ => true,
    }
}

/// Reading the fields of a written message gives the message back and stops behind it, whatever
/// follows.
proof fn lemma_body(input: Seq<u8>, message: MessageView, rest: Seq<u8>)
    requires
        stands(input, 1, body_bytes(message), rest),
        sized(message),
        encode_failure(message) is None,
    ensures
        read_body(kind_byte(message), input, reading_at(1)) == (
            message,
            reading_at(1 + body_bytes(message).len()),
        ),
{
    lemma_byte_range();
    let none = Seq::<u8>::empty();
    assert(body_bytes(message) =~= body_bytes(message) + none);
    lemma_stands(input, 1, body_bytes(message), rest);
    match message {
        MessageView::Hello(hello) => {
            let b3 = capability_bytes(hello.capabilities) + none;
            let b2 = be_bytes(hello.protocol_version.minor as nat, 2) + b3;
            let b1 = be_bytes(hello.protocol_version.major as nat, 2) + b2;
            assert(body_bytes(message) =~= b1);
            lemma_uint(input, 1, hello.protocol_version.major as nat, 2, b2, rest);
            lemma_uint(input, 3, hello.protocol_version.minor as nat, 2, b3, rest);
            lemma_capabilities(input, 5, hello.capabilities, none, rest);
            lemma_be_bytes_len(hello.protocol_version.major as nat, 2);
            lemma_be_bytes_len(hello.protocol_version.minor as nat, 2);
            lemma_be_bytes_len(capability_flags(hello.capabilities), 2);
        },
        MessageView::Challenge { nonce, salt } => {
            assert(body_bytes(message) =~= nonce + (prefixed_text(salt) + none));
            lemma_raw(input, 1, nonce, prefixed_text(salt) + none, rest);
            lemma_text(input, 33, salt, none, rest);
            lemma_be_bytes_len(encode_utf8(salt).len(), 4);
        },
        MessageView::Authenticate { proof: proof_bytes } => {
            lemma_raw(input, 1, proof_bytes, none, rest);
        },
        MessageView::Authenticated { permissions } => {
            lemma_capabilities(input, 1, permissions, none, rest);
            lemma_be_bytes_len(capability_flags(permissions), 2);
        },
        MessageView::Rejected { reason } => {
            lemma_text(input, 1, reason, none, rest);
            lemma_be_bytes_len(encode_utf8(reason).len(), 4);
        },
        MessageView::OpenDesktop => {},
        MessageView::Video { .. } => {
            lemma_video(input, message, rest);
        },
        MessageView::Input(event) => {
            lemma_event(input, 1, event, rest);
        },
        MessageView::RateHint { bitrate, frames_per_second } => {
            let b2 = be_bytes(frames_per_second as nat, 2) + none;
            assert(body_bytes(message) =~= be_bytes(bitrate as nat, 4) + b2);
            lemma_uint(input, 1, bitrate as nat, 4, b2, rest);
            lemma_uint(input, 5, frames_per_second as nat, 2, none, rest);
            lemma_be_bytes_len(bitrate as nat, 4);
            lemma_be_bytes_len(frames_per_second as nat, 2);
        },
        MessageView::KeyframeRequest { last_sequence } => {
            lemma_uint(input, 1, last_sequence as nat, 8, none, rest);
            lemma_be_bytes_len(last_sequence as nat, 8);
        },
        MessageView::KeyframeAck { sequence } => {
            lemma_uint(input, 1, sequence as nat, 8, none, rest);
            lemma_be_bytes_len(sequence as nat, 8);
        },
        MessageView::DesktopUpdate { .. } => {
            lemma_desktop_update(input, message, rest);
        },
        MessageView::Cursor { .. } => {
            lemma_cursor(input, message, rest);
        },
        MessageView::FileOffer { transfer_id, name, size, chunk_size, sha256 } => {
            let b5 = sha256 + none;
            let b4 = be_bytes(chunk_size as nat, 4) + b5;
            let b3 = be_bytes(size as nat, 8) + b4;
            let b2 = prefixed_text(name) + b3;
            assert(body_bytes(message) =~= transfer_id + b2);
            lemma_raw(input, 1, transfer_id, b2, rest);
            lemma_text(input, 17, name, b3, rest);
            let at = 21 + encode_utf8(name).len();
            lemma_uint(input, at, size as nat, 8, b4, rest);
            lemma_uint(input, at + 8, chunk_size as nat, 4, b5, rest);
            lemma_raw(input, at + 12, sha256, none, rest);
            lemma_be_bytes_len(encode_utf8(name).len(), 4);
            lemma_be_bytes_len(size as nat, 8);
            lemma_be_bytes_len(chunk_size as nat, 4);
        },
        MessageView::FileChunk { transfer_id, offset, data, sha256 } => {
            let b4 = sha256 + none;
            let b3 = prefixed(data) + b4;
            let b2 = be_bytes(offset as nat, 8) + b3;
            assert(body_bytes(message) =~= transfer_id + b2);
            lemma_raw(input, 1, transfer_id, b2, rest);
            lemma_uint(input, 17, offset as nat, 8, b3, rest);
            lemma_prefixed(input, 25, data, b4, rest);
            lemma_raw(input, 29 + data.len(), sha256, none, rest);
            lemma_be_bytes_len(offset as nat, 8);
            lemma_be_bytes_len(data.len(), 4);
        },
        MessageView::FileAck { transfer_id, next_offset } => {
            let b2 = be_bytes(next_offset as nat, 8) + none;
            assert(body_bytes(message) =~= transfer_id + b2);
            lemma_raw(input, 1, transfer_id, b2, rest);
            lemma_uint(input, 17, next_offset as nat, 8, none, rest);
            lemma_be_bytes_len(next_offset as nat, 8);
        },
        MessageView::Close => {},
    }
}

proof fn lemma_video(input: Seq<u8>, message: MessageView, rest: Seq<u8>)
    requires
        message is Video,
        stands(input, 1, body_bytes(message), rest),
        payload_len(message) <= u32::MAX,
    ensures
        read_video(input, reading_at(1)) == (
            message,
            reading_at(1 + body_bytes(message).len()),
        ),
{
    lemma_byte_range();
    if let MessageView::Video {
        codec,
        sequence,
        timestamp_millis,
        keyframe,
        width,
        height,
        pixel_format,
        stride,
        data,
    } = message {
        let none = Seq::<u8>::empty();
        let b9 = prefixed(data) + none;
        let b8 = be_bytes(stride as nat, 4) + b9;
        let b7 = seq![pixel_format] + b8;
        let b6 = be_bytes(height as nat, 4) + b7;
        let b5 = be_bytes(width as nat, 4) + b6;
        let b4 = seq![flag_byte(keyframe)] + b5;
        let b3 = be_bytes(timestamp_millis as nat, 8) + b4;
        let b2 = be_bytes(sequence as nat, 8) + b3;
        assert(body_bytes(message) =~= seq![codec] + b2);
        lemma_byte(input, 1, codec, b2, rest);
        lemma_uint(input, 2, sequence as nat, 8, b3, rest);
        lemma_uint(input, 10, timestamp_millis as nat, 8, b4, rest);
        lemma_byte(input, 18, flag_byte(keyframe), b5, rest);
        lemma_uint(input, 19, width as nat, 4, b6, rest);
        lemma_uint(input, 23, height as nat, 4, b7, rest);
        lemma_byte(input, 27, pixel_format, b8, rest);
        lemma_uint(input, 28, stride as nat, 4, b9, rest);
        lemma_prefixed(input, 32, data, none, rest);
        lemma_stands(input, 1, body_bytes(message), rest);
        lemma_be_bytes_len(sequence as nat, 8);
        lemma_be_bytes_len(timestamp_millis as nat, 8);
        lemma_be_bytes_len(width as nat, 4);
        lemma_be_bytes_len(height as nat, 4);
        lemma_be_bytes_len(stride as nat, 4);
        lemma_be_bytes_len(data.len(), 4);
    }
}

proof fn lemma_desktop_update(input: Seq<u8>, message: MessageView, rest: Seq<u8>)
    requires
        message is DesktopUpdate,
        stands(input, 1, body_bytes(message), rest),
        encode_failure(message) is None,
    ensures
        read_desktop_update(input, reading_at(1)) == (
            message,
            reading_at(1 + body_bytes(message).len()),
        ),
{
    lemma_byte_range();
    if let MessageView::DesktopUpdate {
        sequence,
        timestamp_millis,
        desktop_width,
        desktop_height,
        encoding,
        regions,
        data,
    } = message {
        let none = Seq::<u8>::empty();
        let b8 = prefixed(data) + none;
        let b7 = rects_bytes(regions) + b8;
        let b6 = be_bytes(regions.len(), 2) + b7;
        let b5 = seq![encoding] + b6;
        let b4 = be_bytes(desktop_height as nat, 4) + b5;
        let b3 = be_bytes(desktop_width as nat, 4) + b4;
        let b2 = be_bytes(timestamp_millis as nat, 8) + b3;
        assert(body_bytes(message) =~= be_bytes(sequence as nat, 8) + b2);
        lemma_uint(input, 1, sequence as nat, 8, b2, rest);
        lemma_uint(input, 9, timestamp_millis as nat, 8, b3, rest);
        lemma_uint(input, 17, desktop_width as nat, 4, b4, rest);
        lemma_uint(input, 21, desktop_height as nat, 4, b5, rest);
        lemma_byte(input, 25, encoding, b6, rest);
        lemma_uint(input, 26, regions.len(), 2, b7, rest);
        lemma_rects(input, 28, regions, b8, rest);
        lemma_prefixed(input, 28 + 16 * regions.len(), data, none, rest);
        lemma_be_bytes_len(sequence as nat, 8);
        lemma_be_bytes_len(timestamp_millis as nat, 8);
        lemma_be_bytes_len(desktop_width as nat, 4);
        lemma_be_bytes_len(desktop_height as nat, 4);
        lemma_be_bytes_len(regions.len(), 2);
        lemma_be_bytes_len(data.len(), 4);
    }
}

proof fn lemma_cursor(input: Seq<u8>, message: MessageView, rest: Seq<u8>)
    requires
        message is Cursor,
        stands(input, 1, body_bytes(message), rest),
        payload_len(message) <= u32::MAX,
    ensures
        read_cursor(input, reading_at(1)) == (
            message,
            reading_at(1 + body_bytes(message).len()),
        ),
{
    lemma_byte_range();
    if let MessageView::Cursor { sequence, visible, x, y, shape } = message {
        let none = Seq::<u8>::empty();
        let b5 = optional_shape_bytes(shape) + none;
        let b4 = be_bytes(unsigned_pattern(y), 4) + b5;
        let b3 = be_bytes(unsigned_pattern(x), 4) + b4;
        let b2 = seq![flag_byte(visible)] + b3;
        assert(body_bytes(message) =~= be_bytes(sequence as nat, 8) + b2);
        lemma_uint(input, 1, sequence as nat, 8, b2, rest);
        lemma_byte(input, 9, flag_byte(visible), b3, rest);
        lemma_int(input, 10, x, b4, rest);
        lemma_int(input, 14, y, b5, rest);
        lemma_be_bytes_len(sequence as nat, 8);
        lemma_be_bytes_len(unsigned_pattern(x), 4);
        lemma_be_bytes_len(unsigned_pattern(y), 4);
        match shape {
            Some(shape) => {
                assert(b5 =~= seq![1u8] + (shape_bytes(shape) + none));
                lemma_byte(input, 18, 1, shape_bytes(shape) + none, rest);
                lemma_shape(input, 19, shape, none, rest);
                lemma_stands(input, 19, shape_bytes(shape) + none, rest);
                lemma_be_bytes_len(shape.width as nat, 4);
                lemma_be_bytes_len(shape.height as nat, 4);
                lemma_be_bytes_len(shape.hotspot_x as nat, 4);
                lemma_be_bytes_len(shape.hotspot_y as nat, 4);
                lemma_be_bytes_len(shape.pitch as nat, 4);
                lemma_be_bytes_len(shape.data.len(), 4);
            },
            None => {
                assert(b5 =~= seq![0u8] + none);
                lemma_byte(input, 18, 0, none, rest);
            },
        }
    }
}

proof fn lemma_sized(message: WireMessage)
    ensures
        sized(message@),
{
}

/// Reading what was written: every message that can be encoded is decoded from its encoding,
/// unchanged.
pub proof fn law_decode_reads_back_encode(message: WireMessage)
    requires
        encode_failure(message@) is None,
    ensures
        parse_message(message_bytes(message@)) == Ok::<MessageView, DcErrorView>(message@),
{
    let input = message_bytes(message@);
    lemma_sized(message);
    assert(input.skip(1) =~= body_bytes(message@) + Seq::<u8>::empty());
    lemma_body(input, message@, Seq::empty());
}

/// Two messages with the same encoding are the same message.
pub proof fn law_encoding_is_unambiguous(first: WireMessage, second: WireMessage)
    requires
        encode_failure(first@) is None,
        encode_failure(second@) is None,
        message_bytes(first@) == message_bytes(second@),
    ensures
        first@ == second@,
{
    law_decode_reads_back_encode(first);
    law_decode_reads_back_encode(second);
}

/// Bytes behind a complete message are refused.
pub proof fn law_trailing_bytes_are_refused(message: WireMessage, trailing: Seq<u8>)
    requires
        encode_failure(message@) is None,
        trailing.len() > 0,
    ensures
        parse_message(message_bytes(message@) + trailing) is Err,
        message_bytes(message@).len() + trailing.len() <= MAX_MESSAGE_SIZE ==> parse_message(
            message_bytes(message@) + trailing,
        ) == Err::<MessageView, DcErrorView>(
            DcErrorView::Codec("trailing bytes in protocol message"@),
        ),
{
    let input = message_bytes(message@) + trailing;
    if input.len() <= MAX_MESSAGE_SIZE {
        lemma_sized(message);
        assert(input.skip(1) =~= body_bytes(message@) + trailing);
        lemma_body(input, message@, trailing);
    }
}

proof fn lemma_read_rects_len(input: Seq<u8>, state: ReadState, count: nat)
    requires
        read_rects(input, state, count).1.failure is None,
    ensures
        state.failure is None,
        read_rects(input, state, count).0.len() == count,
        read_rects(input, state, count).1.at == state.at + 16 * count,
    decreases count,
{
    if count > 0 {
        lemma_read_rects_len(input, state, (count - 1) as nat);
    }
}

pub(crate) proof fn lemma_rects_bytes_len(rects: Seq<DesktopRect>)
    ensures
        rects_bytes(rects).len() == 16 * rects.len(),
    decreases rects.len(),
{
    if rects.len() > 0 {
        lemma_rects_bytes_len(rects.drop_last());
        let rect = rects.last();
        lemma_be_bytes_len(rect.x as nat, 4);
        lemma_be_bytes_len(rect.y as nat, 4);
        lemma_be_bytes_len(rect.width as nat, 4);
        lemma_be_bytes_len(rect.height as nat, 4);
    }
}

/// A message that was read takes as many bytes as were read.
spec fn exactly_read(kind: u8, input: Seq<u8>, read: (MessageView, ReadState)) -> bool {
    read.1.failure is None ==> {
        &&& kind_byte(read.0) == kind
        &&& sized(read.0)
        &&& 1 + body_bytes(read.0).len() == read.1.at
        &&& payload_len(read.0) <= input.len()
        &&& !bad_region_count(read.0)
    }
}

pub(crate) proof fn lemma_all_be_bytes_len()
    ensures
        forall|value: nat, width: nat| #[trigger] be_bytes(value, width).len() == width,
{
    assert forall|value: nat, width: nat| #[trigger] be_bytes(value, width).len() == width by {
        lemma_be_bytes_len(value, width);
    }
}

proof fn lemma_read_len_session(kind: u8, input: Seq<u8>)
    requires
        1 <= kind <= 5,
    ensures
        exactly_read(kind, input, read_body(kind, input, reading_at(1))),
{
    lemma_all_be_bytes_len();
    if read_body(kind, input, reading_at(1)).1.failure is Some {
    } else if kind == 2 {
        vstd::utf8::decode_utf8_encode_utf8(
            read_bytes(input, read_raw(input, reading_at(1), 32).1).0,
        );
    } else if kind == 5 {
        vstd::utf8::decode_utf8_encode_utf8(read_bytes(input, reading_at(1)).0);
    }
}

proof fn lemma_read_len_file(kind: u8, input: Seq<u8>)
    requires
        10 <= kind <= 12,
    ensures
        exactly_read(kind, input, read_body(kind, input, reading_at(1))),
{
    lemma_all_be_bytes_len();
    if kind == 10 && read_body(kind, input, reading_at(1)).1.failure is None {
        vstd::utf8::decode_utf8_encode_utf8(
            read_bytes(input, read_raw(input, reading_at(1), 16).1).0,
        );
    }
}

proof fn lemma_read_len_event(input: Seq<u8>)
    ensures
        exactly_read(8, input, read_body(8, input, reading_at(1))),
{
    lemma_all_be_bytes_len();
    let (kind, state) = read_uint(input, reading_at(1), 1);
    let (event, after) = read_event(input, reading_at(1));
    if kind == 1 {
        assert(after.failure is None ==> event_bytes(event).len() == 10);
    } else if kind == 2 {
        assert(after.failure is None ==> event_bytes(event).len() == 4);
    } else if kind == 3 {
        assert(after.failure is None ==> event_bytes(event).len() == 9);
    }
}

proof fn lemma_read_len_video(input: Seq<u8>)
    ensures
        exactly_read(7, input, read_body(7, input, reading_at(1))),
{
    lemma_all_be_bytes_len();
}

proof fn lemma_read_len_cursor(input: Seq<u8>)
    ensures
        exactly_read(17, input, read_body(17, input, reading_at(1))),
{
    lemma_all_be_bytes_len();
}

proof fn lemma_read_len_update(input: Seq<u8>)
    ensures
        exactly_read(16, input, read_body(16, input, reading_at(1))),
{
    let read = read_desktop_update(input, reading_at(1));
    if read.1.failure is None {
        lemma_all_be_bytes_len();
        lemma_update_read_len(input);
        if let MessageView::DesktopUpdate { regions, .. } = read.0 {
            lemma_rects_bytes_len(regions);
        }
    }
}

proof fn lemma_read_len(kind: u8, input: Seq<u8>)
    ensures
        exactly_read(kind, input, read_body(kind, input, reading_at(1))),
{
    if 1 <= kind <= 5 {
        lemma_read_len_session(kind, input);
    } else if kind == 7 {
        lemma_read_len_video(input);
    } else if kind == 8 {
        lemma_read_len_event(input);
    } else if 10 <= kind <= 12 {
        lemma_read_len_file(kind, input);
    } else if kind == 16 {
        lemma_read_len_update(input);
    } else if kind == 17 {
        lemma_read_len_cursor(input);
    } else {
        lemma_all_be_bytes_len();
    }
}

/// What reading a desktop update says of its regions.
proof fn lemma_update_read_len(input: Seq<u8>)
    requires
        read_desktop_update(input, reading_at(1)).1.failure is None,
    ensures
        read_desktop_update(input, reading_at(1)).0 matches MessageView::DesktopUpdate {
            regions,
            data,
            ..
        } && 0 < regions.len() <= 256 && read_desktop_update(input, reading_at(1)).1.at == 1 + 31
            + 16 * regions.len() + data.len() && data.len() <= input.len(),
{
    let state = reading_at(1);
    let (sequence, state) = read_uint(input, state, 8);
    let (timestamp_millis, state) = read_uint(input, state, 8);
    let (desktop_width, state) = read_uint(input, state, 4);
    let (desktop_height, state) = read_uint(input, state, 4);
    let (encoding, state) = read_uint(input, state, 1);
    let (count, state) = read_uint(input, state, 2);
    let checked = if state.failure is None && (count == 0 || count > 256) {
        failed(state, DcErrorView::Codec("desktop update has an invalid region count"@))
    } else {
        state
    };
    let (regions, after) = read_rects(input, checked, count);
    if after.failure is Some {
        assert(read_bytes(input, after).1 == after);
    }
    lemma_read_rects_len(input, checked, count);
}

/// A decoded message can be encoded again, to as many bytes as it was decoded from, and decodes
/// to itself.
pub proof fn law_decoded_message_encodes(input: Seq<u8>)
    requires
        parse_message(input) is Ok,
    ensures
        ({
            let message = parse_message(input)->Ok_0;
            &&& encode_failure(message) is None
            &&& message_bytes(message).len() == input.len()
            &&& parse_message(message_bytes(message)) == Ok::<MessageView, DcErrorView>(message)
        }),
{
    let message = parse_message(input)->Ok_0;
    lemma_read_len(input[0], input);
    let written = message_bytes(message);
    assert(written.skip(1) =~= body_bytes(message) + Seq::<u8>::empty());
    lemma_body(written, message, Seq::empty());
}

/// What was read without a failure is read in the same way when more bytes follow.
proof fn lemma_reads_behind(input: Seq<u8>, more: Seq<u8>)
    ensures
        forall|state: ReadState, count: nat|
            (#[trigger] read_raw(input, state, count)).1.failure is None ==> read_raw(
                input + more,
                state,
                count,
            ) == read_raw(input, state, count),
{
    assert forall|state: ReadState, count: nat|
        (#[trigger] read_raw(input, state, count)).1.failure is None implies read_raw(
        input + more,
        state,
        count,
    ) == read_raw(input, state, count) by {
        let whole = input + more;
        assert(whole.subrange(state.at as int, (state.at + count) as int) =~= input.subrange(
            state.at as int,
            (state.at + count) as int,
        ));
    }
}

proof fn lemma_session_behind(kind: u8, input: Seq<u8>, more: Seq<u8>)
    requires
        kind <= 6 || kind == 9 || 12 <= kind <= 15 || kind > 17,
        read_body(kind, input, reading_at(1)).1.failure is None,
    ensures
        read_body(kind, input + more, reading_at(1)) == read_body(kind, input, reading_at(1)),
{
    lemma_reads_behind(input, more);
}

proof fn lemma_file_behind(kind: u8, input: Seq<u8>, more: Seq<u8>)
    requires
        10 <= kind <= 11,
        read_body(kind, input, reading_at(1)).1.failure is None,
    ensures
        read_body(kind, input + more, reading_at(1)) == read_body(kind, input, reading_at(1)),
{
    lemma_reads_behind(input, more);
}

proof fn lemma_video_behind(input: Seq<u8>, more: Seq<u8>)
    requires
        read_video(input, reading_at(1)).1.failure is None,
    ensures
        read_video(input + more, reading_at(1)) == read_video(input, reading_at(1)),
{
    lemma_reads_behind(input, more);
}

proof fn lemma_event_behind(input: Seq<u8>, more: Seq<u8>)
    requires
        read_event(input, reading_at(1)).1.failure is None,
    ensures
        read_event(input + more, reading_at(1)) == read_event(input, reading_at(1)),
{
    lemma_reads_behind(input, more);
}

proof fn lemma_cursor_behind(input: Seq<u8>, more: Seq<u8>)
    requires
        read_cursor(input, reading_at(1)).1.failure is None,
    ensures
        read_cursor(input + more, reading_at(1)) == read_cursor(input, reading_at(1)),
{
    lemma_reads_behind(input, more);
}

proof fn lemma_rects_behind(input: Seq<u8>, more: Seq<u8>, state: ReadState, count: nat)
    requires
        read_rects(input, state, count).1.failure is None,
    ensures
        state.failure is None,
        read_rects(input + more, state, count) == read_rects(input, state, count),
    decreases count,
{
    if count > 0 {
        let before = read_rects(input, state, (count - 1) as nat).1;
        lemma_reads_behind(input, more);
        assert(read_rect(input, before).1.failure is None);
        lemma_rects_behind(input, more, state, (count - 1) as nat);
    }
}

proof fn lemma_update_behind(input: Seq<u8>, more: Seq<u8>)
    requires
        read_desktop_update(input, reading_at(1)).1.failure is None,
    ensures
        read_desktop_update(input + more, reading_at(1)) == read_desktop_update(
            input,
            reading_at(1),
        ),
{
    lemma_reads_behind(input, more);
    let (_, state) = read_uint(input, reading_at(1), 8);
    let (_, state) = read_uint(input, state, 8);
    let (_, state) = read_uint(input, state, 4);
    let (_, state) = read_uint(input, state, 4);
    let (_, state) = read_uint(input, state, 1);
    let (count, state) = read_uint(input, state, 2);
    let state = if state.failure is None && (count == 0 || count > MAX_DESKTOP_REGIONS) {
        failed(state, DcErrorView::Codec("desktop update has an invalid region count"@))
    } else {
        state
    };
    lemma_rects_behind(input, more, state, count);
}

/// What is read as a message is read in the same way when more bytes follow.
proof fn lemma_body_behind(kind: u8, input: Seq<u8>, more: Seq<u8>)
    requires
        read_body(kind, input, reading_at(1)).1.failure is None,
    ensures
        read_body(kind, input + more, reading_at(1)) == read_body(kind, input, reading_at(1)),
{
    if kind == 7 {
        lemma_video_behind(input, more);
    } else if kind == 8 {
        lemma_event_behind(input, more);
    } else if 10 <= kind <= 11 {
        lemma_file_behind(kind, input, more);
    } else if kind == 16 {
        lemma_update_behind(input, more);
    } else if kind == 17 {
        lemma_cursor_behind(input, more);
    } else {
        lemma_session_behind(kind, input, more);
    }
}

/// Behind an accepted byte string no byte may follow.
#[verifier::spinoff_prover]
#[verifier::rlimit(60)]
proof fn lemma_nothing_behind(input: Seq<u8>, more: Seq<u8>)
    requires
        parse_message(input) is Ok,
        more.len() > 0,
    ensures
        parse_message(input + more) is Err,
{
    let whole = input + more;
    let kind = input[0];
    assert(whole[0] == kind);
    assert(read_body(kind, input, reading_at(1)).1.failure is None);
    lemma_body_behind(kind, input, more);
    assert(read_body(kind, whole, reading_at(1)).1.at == input.len());
}

/// The accepted byte strings are prefix-free: behind an accepted one no byte may follow, and none
/// of its proper beginnings is accepted.
pub proof fn law_accepted_inputs_are_prefix_free(input: Seq<u8>, trailing: Seq<u8>, count: int)
    requires
        parse_message(input) is Ok,
    ensures
        trailing.len() > 0 ==> parse_message(input + trailing) is Err,
        0 <= count < input.len() ==> parse_message(input.take(count)) is Err,
{
    if trailing.len() > 0 {
        lemma_nothing_behind(input, trailing);
    }
    if 0 <= count < input.len() {
        let start = input.take(count);
        assert(start + input.skip(count) =~= input);
        if parse_message(start) is Ok {
            lemma_nothing_behind(start, input.skip(count));
        }
    }
}

} // verus!
