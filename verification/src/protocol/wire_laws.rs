//! Where the parts of a message stand on the wire.
use crate::bytes::{be_bytes, be_value, law_be_bytes_read_back, lemma_byte_range};
use crate::protocol::format::{
    capabilities_of, capability_flags, encode_failure, message_bytes, payload_len, rect_bytes,
    rects_bytes, weighted,
};
use crate::protocol::laws::{lemma_all_be_bytes_len, lemma_rects_bytes_len};
use crate::protocol::types::{this_version, Capabilities, MessageView, ProtocolVersion};
use crate::protocol::{DesktopRect, InputEvent};
use vstd::prelude::*;
use vstd::utf8::encode_utf8;

verus! {

/// The number that stands at a position, its highest byte first.
pub open spec fn number_at(bytes: Seq<u8>, at: int, width: nat) -> int
    decreases width,
{
    if width == 0 {
        0
    } else {
        256 * number_at(bytes, at, (width - 1) as nat) + bytes[at + width - 1]
    }
}

/// The signed number that stands at a position in four bytes: the upper half of the range stands for
/// the negative numbers.
pub open spec fn signed_at(bytes: Seq<u8>, at: int) -> int {
    if number_at(bytes, at, 4) < 0x8000_0000 {
        number_at(bytes, at, 4)
    } else {
        number_at(bytes, at, 4) - 0x1_0000_0000
    }
}

/// Whether bytes stand at a position.
pub open spec fn stand_at(bytes: Seq<u8>, at: int, part: Seq<u8>) -> bool {
    &&& 0 <= at
    &&& at + part.len() <= bytes.len()
    &&& forall|i: int| 0 <= i < part.len() ==> #[trigger] bytes[at + i] == part[i]
}

pub(crate) proof fn lemma_number(bytes: Seq<u8>, at: int, width: nat)
    requires
        0 <= at,
        at + width <= bytes.len(),
    ensures
        number_at(bytes, at, width) == be_value(bytes.subrange(at, at + width)),
    decreases width,
{
    let part = bytes.subrange(at, at + width);
    if width > 0 {
        lemma_number(bytes, at, (width - 1) as nat);
        assert(part.drop_last() =~= bytes.subrange(at, at + width - 1));
        assert(part.last() == bytes[at + width - 1]);
    }
}

pub(crate) proof fn lemma_field(bytes: Seq<u8>, at: int, value: nat, width: nat)
    requires
        0 <= at,
        at + width <= bytes.len(),
        value < crate::bytes::byte_range(width),
        bytes.subrange(at, at + width) == be_bytes(value, width),
    ensures
        number_at(bytes, at, width) == value,
{
    lemma_number(bytes, at, width);
    law_be_bytes_read_back(value, width);
}

/// The version, and the flags of what a side can do: the two bytes behind it.
pub proof fn law_hello_layout(message: MessageView)
    requires
        message is Hello,
    ensures
        ({
            let bytes = message_bytes(message);
            let hello = message->Hello_0;
            &&& bytes.len() == 7
            &&& bytes[0] == 1
            &&& number_at(bytes, 1, 2) == hello.protocol_version.major
            &&& number_at(bytes, 3, 2) == hello.protocol_version.minor
            &&& number_at(bytes, 5, 2) == capability_flags(hello.capabilities)
        }),
{
    let bytes = message_bytes(message);
    let hello = message->Hello_0;
    law_capability_bits(hello.capabilities, 0);
    lemma_all_be_bytes_len();
    lemma_byte_range();
    let major = be_bytes(hello.protocol_version.major as nat, 2);
    let minor = be_bytes(hello.protocol_version.minor as nat, 2);
    let flags = be_bytes(capability_flags(hello.capabilities), 2);
    assert(bytes =~= seq![1u8] + (major + (minor + flags)));
    assert(bytes.subrange(1, 3) =~= major);
    assert(bytes.subrange(3, 5) =~= minor);
    assert(bytes.subrange(5, 7) =~= flags);
    lemma_field(bytes, 1, hello.protocol_version.major as nat, 2);
    lemma_field(bytes, 3, hello.protocol_version.minor as nat, 2);
    lemma_field(bytes, 5, capability_flags(hello.capabilities), 2);
}

/// The flags of what a side can do, each with a bit of its own, from the lowest on: desktop, terminal,
/// commands, files, clipboard, remote shell, input, hybrid video, desktop optimizations and units of
/// H.264 in datagrams.
pub proof fn law_capability_bits(value: Capabilities, flags: nat)
    ensures
        ({
            let bit = |set: bool, weight: int|
                if set {
                    weight
                } else {
                    0
                };
            capability_flags(value) == bit(value.desktop, 1) + bit(value.terminal, 2) + bit(
                value.command_execution,
                4,
            ) + bit(value.file_transfer, 8) + bit(value.clipboard, 16) + bit(
                value.ssh_compatibility,
                32,
            ) + bit(value.control_input, 64) + bit(value.hybrid_video, 128) + bit(
                value.desktop_optimizations,
                256,
            ) + bit(value.h264_nal_datagrams, 512)
        }),
        capability_flags(value) < 1024,
        capabilities_of(flags).desktop <==> flags % 2 == 1,
        capabilities_of(flags).terminal <==> flags / 2 % 2 == 1,
        capabilities_of(flags).command_execution <==> flags / 4 % 2 == 1,
        capabilities_of(flags).file_transfer <==> flags / 8 % 2 == 1,
        capabilities_of(flags).clipboard <==> flags / 16 % 2 == 1,
        capabilities_of(flags).ssh_compatibility <==> flags / 32 % 2 == 1,
        capabilities_of(flags).control_input <==> flags / 64 % 2 == 1,
        capabilities_of(flags).hybrid_video <==> flags / 128 % 2 == 1,
        capabilities_of(flags).desktop_optimizations <==> flags / 256 % 2 == 1,
        capabilities_of(flags).h264_nal_datagrams <==> flags / 512 % 2 == 1,
{
    reveal(weighted);
}

/// The messages that open a session, and those that have no body.
pub proof fn law_session_layout(message: MessageView)
    requires
        message matches MessageView::Challenge { nonce, .. } ==> nonce.len() == 32,
        message matches MessageView::Authenticate { proof } ==> proof.len() == 32,
        payload_len(message) <= u32::MAX,
    ensures
        ({
            let bytes = message_bytes(message);
            match message {
                MessageView::Challenge { nonce, salt } => {
                    &&& bytes.len() == 37 + encode_utf8(salt).len()
                    &&& bytes[0] == 2
                    &&& stand_at(bytes, 1, nonce)
                    &&& number_at(bytes, 33, 4) == encode_utf8(salt).len()
                    &&& stand_at(bytes, 37, encode_utf8(salt))
                },
                MessageView::Authenticate { proof } => {
                    &&& bytes.len() == 33
                    &&& bytes[0] == 3
                    &&& stand_at(bytes, 1, proof)
                },
                MessageView::Authenticated { permissions } => {
                    &&& bytes.len() == 3
                    &&& bytes[0] == 4
                    &&& number_at(bytes, 1, 2) == capability_flags(permissions)
                },
                MessageView::Rejected { reason } => {
                    &&& bytes.len() == 5 + encode_utf8(reason).len()
                    &&& bytes[0] == 5
                    &&& number_at(bytes, 1, 4) == encode_utf8(reason).len()
                    &&& stand_at(bytes, 5, encode_utf8(reason))
                },
                MessageView::OpenDesktop => bytes =~= seq![6u8],
                MessageView::Close => bytes =~= seq![13u8],
                _ => true,
            }
        }),
{
    let bytes = message_bytes(message);
    lemma_all_be_bytes_len();
    lemma_byte_range();
    match message {
        MessageView::Challenge { nonce, salt } => {
            let length = be_bytes(encode_utf8(salt).len(), 4);
            assert(bytes =~= seq![2u8] + (nonce + (length + encode_utf8(salt))));
            assert(bytes.subrange(33, 37) =~= length);
            lemma_field(bytes, 33, encode_utf8(salt).len(), 4);
        },
        MessageView::Authenticated { permissions } => {
            law_capability_bits(permissions, 0);
            assert(bytes.subrange(1, 3) =~= be_bytes(capability_flags(permissions), 2));
            lemma_field(bytes, 1, capability_flags(permissions), 2);
        },
        MessageView::Rejected { reason } => {
            let length = be_bytes(encode_utf8(reason).len(), 4);
            assert(bytes =~= seq![5u8] + (length + encode_utf8(reason)));
            assert(bytes.subrange(1, 5) =~= length);
            lemma_field(bytes, 1, encode_utf8(reason).len(), 4);
        },
        _ => {},
    }
}

/// A picture: its codec, its number, its time, whether it is a keyframe, its size, its format, its
/// stride, and its data behind their length.
#[verifier::spinoff_prover]
#[verifier::rlimit(40)]
pub proof fn law_picture_layout(message: MessageView)
    requires
        message is Video,
        message->Video_data.len() <= u32::MAX,
    ensures
        ({
            let bytes = message_bytes(message);
            &&& bytes.len() == 36 + message->Video_data.len()
            &&& bytes[0] == 7
            &&& bytes[1] == message->Video_codec
            &&& number_at(bytes, 2, 8) == message->Video_sequence
            &&& number_at(bytes, 10, 8) == message->Video_timestamp_millis
            &&& bytes[18] == (if message->Video_keyframe {
                1u8
            } else {
                0u8
            })
            &&& number_at(bytes, 19, 4) == message->Video_width
            &&& number_at(bytes, 23, 4) == message->Video_height
            &&& bytes[27] == message->Video_pixel_format
            &&& number_at(bytes, 28, 4) == message->Video_stride
            &&& number_at(bytes, 32, 4) == message->Video_data.len()
            &&& stand_at(bytes, 36, message->Video_data)
        }),
{
    let bytes = message_bytes(message);
    lemma_all_be_bytes_len();
    lemma_byte_range();
    assert(bytes.subrange(2, 10) =~= be_bytes(message->Video_sequence as nat, 8));
    lemma_field(bytes, 2, message->Video_sequence as nat, 8);
    assert(bytes.subrange(10, 18) =~= be_bytes(message->Video_timestamp_millis as nat, 8));
    lemma_field(bytes, 10, message->Video_timestamp_millis as nat, 8);
    assert(bytes.subrange(19, 23) =~= be_bytes(message->Video_width as nat, 4));
    lemma_field(bytes, 19, message->Video_width as nat, 4);
    assert(bytes.subrange(23, 27) =~= be_bytes(message->Video_height as nat, 4));
    lemma_field(bytes, 23, message->Video_height as nat, 4);
    assert(bytes.subrange(28, 32) =~= be_bytes(message->Video_stride as nat, 4));
    lemma_field(bytes, 28, message->Video_stride as nat, 4);
    assert(bytes.subrange(32, 36) =~= be_bytes(message->Video_data.len(), 4));
    lemma_field(bytes, 32, message->Video_data.len(), 4);
    assert forall|i: int| 0 <= i < message->Video_data.len() implies #[trigger] bytes[36 + i]
        == message->Video_data[i] by {}
}

proof fn lemma_signed_field(bytes: Seq<u8>, at: int, value: i32)
    requires
        0 <= at,
        at + 4 <= bytes.len(),
        bytes.subrange(at, at + 4) == be_bytes(crate::bytes::unsigned_pattern(value), 4),
    ensures
        signed_at(bytes, at) == value,
{
    lemma_byte_range();
    lemma_field(bytes, at, crate::bytes::unsigned_pattern(value), 4);
}

/// Input: where the pointer is and which buttons are held; which key, by its code, and whether it is
/// held; by how much the wheels turned, the horizontal one first.
#[verifier::spinoff_prover]
pub proof fn law_input_layout(event: InputEvent)
    ensures
        ({
            let bytes = message_bytes(MessageView::Input(event));
            &&& bytes[0] == 8
            &&& match event {
                InputEvent::Pointer { x, y, buttons } => {
                    &&& bytes.len() == 11
                    &&& bytes[1] == 1
                    &&& signed_at(bytes, 2) == x
                    &&& signed_at(bytes, 6) == y
                    &&& bytes[10] == buttons
                },
                InputEvent::Key { key, pressed } => {
                    &&& bytes.len() == 5
                    &&& bytes[1] == 2
                    &&& number_at(bytes, 2, 2) == key.code()
                    &&& bytes[4] == (if pressed {
                        1u8
                    } else {
                        0u8
                    })
                },
                InputEvent::Wheel { delta_x, delta_y } => {
                    &&& bytes.len() == 10
                    &&& bytes[1] == 3
                    &&& signed_at(bytes, 2) == delta_x
                    &&& signed_at(bytes, 6) == delta_y
                },
            }
        }),
{
    let bytes = message_bytes(MessageView::Input(event));
    lemma_all_be_bytes_len();
    lemma_byte_range();
    match event {
        InputEvent::Pointer { x, y, buttons } => {
            assert(bytes.subrange(2, 6) =~= be_bytes(crate::bytes::unsigned_pattern(x), 4));
            lemma_signed_field(bytes, 2, x);
            assert(bytes.subrange(6, 10) =~= be_bytes(crate::bytes::unsigned_pattern(y), 4));
            lemma_signed_field(bytes, 6, y);
        },
        InputEvent::Key { key, pressed } => {
            assert(bytes.subrange(2, 4) =~= be_bytes(key.code() as nat, 2));
            lemma_field(bytes, 2, key.code() as nat, 2);
        },
        InputEvent::Wheel { delta_x, delta_y } => {
            assert(bytes.subrange(2, 6) =~= be_bytes(crate::bytes::unsigned_pattern(delta_x), 4));
            lemma_signed_field(bytes, 2, delta_x);
            assert(bytes.subrange(6, 10) =~= be_bytes(crate::bytes::unsigned_pattern(delta_y), 4));
            lemma_signed_field(bytes, 6, delta_y);
        },
    }
}

/// What a viewer tells about the stream: its rates, the keyframe that it wants and the one it has
/// shown.
pub proof fn law_stream_control_layout(message: MessageView)
    ensures
        ({
            let bytes = message_bytes(message);
            match message {
                MessageView::RateHint { bitrate, frames_per_second } => {
                    &&& bytes.len() == 7
                    &&& bytes[0] == 9
                    &&& number_at(bytes, 1, 4) == bitrate
                    &&& number_at(bytes, 5, 2) == frames_per_second
                },
                MessageView::KeyframeRequest { last_sequence } => {
                    &&& bytes.len() == 9
                    &&& bytes[0] == 14
                    &&& number_at(bytes, 1, 8) == last_sequence
                },
                MessageView::KeyframeAck { sequence } => {
                    &&& bytes.len() == 9
                    &&& bytes[0] == 15
                    &&& number_at(bytes, 1, 8) == sequence
                },
                _ => true,
            }
        }),
{
    let bytes = message_bytes(message);
    lemma_all_be_bytes_len();
    lemma_byte_range();
    match message {
        MessageView::RateHint { bitrate, frames_per_second } => {
            assert(bytes.subrange(1, 5) =~= be_bytes(bitrate as nat, 4));
            lemma_field(bytes, 1, bitrate as nat, 4);
            assert(bytes.subrange(5, 7) =~= be_bytes(frames_per_second as nat, 2));
            lemma_field(bytes, 5, frames_per_second as nat, 2);
        },
        MessageView::KeyframeRequest { last_sequence } => {
            assert(bytes.subrange(1, 9) =~= be_bytes(last_sequence as nat, 8));
            lemma_field(bytes, 1, last_sequence as nat, 8);
        },
        MessageView::KeyframeAck { sequence } => {
            assert(bytes.subrange(1, 9) =~= be_bytes(sequence as nat, 8));
            lemma_field(bytes, 1, sequence as nat, 8);
        },
        _ => {},
    }
}

proof fn lemma_rect_place(rects: Seq<DesktopRect>, index: int)
    requires
        0 <= index < rects.len(),
    ensures
        rects_bytes(rects).len() == 16 * rects.len(),
        rects_bytes(rects).subrange(16 * index, 16 * index + 16) == rect_bytes(rects[index]),
    decreases rects.len(),
{
    lemma_rects_bytes_len(rects);
    let front = rects.drop_last();
    let last = rects.len() - 1;
    lemma_rects_bytes_len(front);
    if index < last {
        lemma_rect_place(front, index);
        assert(rects_bytes(rects).subrange(16 * index, 16 * index + 16) =~= rects_bytes(
            front,
        ).subrange(16 * index, 16 * index + 16));
    } else {
        assert(rects_bytes(rects).subrange(16 * index, 16 * index + 16) =~= rect_bytes(
            rects.last(),
        ));
    }
}

/// A region update: its number and time, the desktop's size, how the pixels are packed, how many
/// rectangles there are, sixteen bytes for each of them, and the data behind their length.
#[verifier::spinoff_prover]
#[verifier::rlimit(60)]
pub proof fn law_update_layout(message: MessageView, index: int)
    requires
        message is DesktopUpdate,
        message->DesktopUpdate_data.len() <= u32::MAX,
        0 <= index < message->DesktopUpdate_regions.len() <= 256,
    ensures
        ({
            let bytes = message_bytes(message);
            let count = message->DesktopUpdate_regions.len() as int;
            let rect = message->DesktopUpdate_regions[index];
            &&& bytes.len() == 32 + 16 * count + message->DesktopUpdate_data.len()
            &&& bytes[0] == 16
            &&& number_at(bytes, 1, 8) == message->DesktopUpdate_sequence
            &&& number_at(bytes, 9, 8) == message->DesktopUpdate_timestamp_millis
            &&& number_at(bytes, 17, 4) == message->desktop_width
            &&& number_at(bytes, 21, 4) == message->desktop_height
            &&& bytes[25] == message->DesktopUpdate_encoding
            &&& number_at(bytes, 26, 2) == count
            &&& number_at(bytes, 28 + 16 * index, 4) == rect.x
            &&& number_at(bytes, 32 + 16 * index, 4) == rect.y
            &&& number_at(bytes, 36 + 16 * index, 4) == rect.width
            &&& number_at(bytes, 40 + 16 * index, 4) == rect.height
            &&& number_at(bytes, 28 + 16 * count, 4) == message->DesktopUpdate_data.len()
            &&& stand_at(bytes, 32 + 16 * count, message->DesktopUpdate_data)
        }),
{
    let bytes = message_bytes(message);
    let regions = message->DesktopUpdate_regions;
    let count = regions.len() as int;
    let rect = regions[index];
    let data = message->DesktopUpdate_data;
    lemma_all_be_bytes_len();
    lemma_byte_range();
    lemma_rect_place(regions, index);
    let list = rects_bytes(regions);
    assert(bytes.subrange(1, 9) =~= be_bytes(message->DesktopUpdate_sequence as nat, 8));
    lemma_field(bytes, 1, message->DesktopUpdate_sequence as nat, 8);
    assert(bytes.subrange(9, 17) =~= be_bytes(message->DesktopUpdate_timestamp_millis as nat, 8));
    lemma_field(bytes, 9, message->DesktopUpdate_timestamp_millis as nat, 8);
    assert(bytes.subrange(17, 21) =~= be_bytes(message->desktop_width as nat, 4));
    lemma_field(bytes, 17, message->desktop_width as nat, 4);
    assert(bytes.subrange(21, 25) =~= be_bytes(message->desktop_height as nat, 4));
    lemma_field(bytes, 21, message->desktop_height as nat, 4);
    assert(bytes.subrange(26, 28) =~= be_bytes(count as nat, 2));
    lemma_field(bytes, 26, count as nat, 2);
    let at = 28 + 16 * index;
    assert(bytes.subrange(28, 28 + 16 * count) =~= list);
    assert(bytes.subrange(at, at + 16) =~= list.subrange(16 * index, 16 * index + 16));
    let four = rect_bytes(rect);
    assert(bytes.subrange(at, at + 4) =~= four.subrange(0, 4));
    assert(four.subrange(0, 4) =~= be_bytes(rect.x as nat, 4));
    lemma_field(bytes, at, rect.x as nat, 4);
    assert(bytes.subrange(at + 4, at + 8) =~= four.subrange(4, 8));
    assert(four.subrange(4, 8) =~= be_bytes(rect.y as nat, 4));
    lemma_field(bytes, at + 4, rect.y as nat, 4);
    assert(bytes.subrange(at + 8, at + 12) =~= four.subrange(8, 12));
    assert(four.subrange(8, 12) =~= be_bytes(rect.width as nat, 4));
    lemma_field(bytes, at + 8, rect.width as nat, 4);
    assert(bytes.subrange(at + 12, at + 16) =~= four.subrange(12, 16));
    assert(four.subrange(12, 16) =~= be_bytes(rect.height as nat, 4));
    lemma_field(bytes, at + 12, rect.height as nat, 4);
    let end = 28 + 16 * count;
    assert(bytes.subrange(end, end + 4) =~= be_bytes(data.len(), 4));
    lemma_field(bytes, end, data.len(), 4);
    assert forall|i: int| 0 <= i < data.len() implies #[trigger] bytes[32 + 16 * count + i]
        == data[i] by {}
}

/// A cursor: its number, whether it is seen, where it is, and, behind a byte that says whether there
/// is one, its shape.
#[verifier::spinoff_prover]
#[verifier::rlimit(60)]
pub proof fn law_cursor_layout(message: MessageView)
    requires
        message is Cursor,
        payload_len(message) <= u32::MAX,
    ensures
        ({
            let bytes = message_bytes(message);
            &&& bytes[0] == 17
            &&& number_at(bytes, 1, 8) == message->Cursor_sequence
            &&& bytes[9] == (if message->visible {
                1u8
            } else {
                0u8
            })
            &&& signed_at(bytes, 10) == message->Cursor_x
            &&& signed_at(bytes, 14) == message->Cursor_y
            &&& message->shape is None ==> bytes.len() == 19 && bytes[18] == 0
            &&& message->shape is Some ==> {
                let shape = message->shape->Some_0;
                &&& bytes.len() == 44 + shape.data.len()
                &&& bytes[18] == 1
                &&& bytes[19] == shape.kind
                &&& number_at(bytes, 20, 4) == shape.width
                &&& number_at(bytes, 24, 4) == shape.height
                &&& number_at(bytes, 28, 4) == shape.hotspot_x
                &&& number_at(bytes, 32, 4) == shape.hotspot_y
                &&& number_at(bytes, 36, 4) == shape.pitch
                &&& number_at(bytes, 40, 4) == shape.data.len()
                &&& stand_at(bytes, 44, shape.data)
            }
        }),
{
    let bytes = message_bytes(message);
    lemma_all_be_bytes_len();
    lemma_byte_range();
    assert(bytes.subrange(1, 9) =~= be_bytes(message->Cursor_sequence as nat, 8));
    lemma_field(bytes, 1, message->Cursor_sequence as nat, 8);
    assert(bytes.subrange(10, 14) =~= be_bytes(
        crate::bytes::unsigned_pattern(message->Cursor_x),
        4,
    ));
    lemma_signed_field(bytes, 10, message->Cursor_x);
    assert(bytes.subrange(14, 18) =~= be_bytes(
        crate::bytes::unsigned_pattern(message->Cursor_y),
        4,
    ));
    lemma_signed_field(bytes, 14, message->Cursor_y);
    if message->shape is Some {
        let shape = message->shape->Some_0;
        assert(bytes.subrange(20, 24) =~= be_bytes(shape.width as nat, 4));
        lemma_field(bytes, 20, shape.width as nat, 4);
        assert(bytes.subrange(24, 28) =~= be_bytes(shape.height as nat, 4));
        lemma_field(bytes, 24, shape.height as nat, 4);
        assert(bytes.subrange(28, 32) =~= be_bytes(shape.hotspot_x as nat, 4));
        lemma_field(bytes, 28, shape.hotspot_x as nat, 4);
        assert(bytes.subrange(32, 36) =~= be_bytes(shape.hotspot_y as nat, 4));
        lemma_field(bytes, 32, shape.hotspot_y as nat, 4);
        assert(bytes.subrange(36, 40) =~= be_bytes(shape.pitch as nat, 4));
        lemma_field(bytes, 36, shape.pitch as nat, 4);
        assert(bytes.subrange(40, 44) =~= be_bytes(shape.data.len(), 4));
        lemma_field(bytes, 40, shape.data.len(), 4);
        assert forall|i: int| 0 <= i < shape.data.len() implies #[trigger] bytes[44 + i]
            == shape.data[i] by {}
    }
}

/// The messages of a file transfer: the offer with the file's name, size and hash, a chunk with its
/// place, data and hash, and how much has arrived.
#[verifier::spinoff_prover]
#[verifier::rlimit(60)]
pub proof fn law_file_layout(message: MessageView)
    requires
        message matches MessageView::FileOffer { transfer_id, sha256, .. } ==> transfer_id.len()
            == 16 && sha256.len() == 32,
        message matches MessageView::FileChunk { transfer_id, sha256, .. } ==> transfer_id.len()
            == 16 && sha256.len() == 32,
        message matches MessageView::FileAck { transfer_id, .. } ==> transfer_id.len() == 16,
        payload_len(message) <= u32::MAX,
    ensures
        ({
            let bytes = message_bytes(message);
            match message {
                MessageView::FileOffer { transfer_id, name, size, chunk_size, sha256 } => {
                    let text = encode_utf8(name);
                    &&& bytes.len() == 65 + text.len()
                    &&& bytes[0] == 10
                    &&& stand_at(bytes, 1, transfer_id)
                    &&& number_at(bytes, 17, 4) == text.len()
                    &&& stand_at(bytes, 21, text)
                    &&& number_at(bytes, 21 + text.len() as int, 8) == size
                    &&& number_at(bytes, 29 + text.len() as int, 4) == chunk_size
                    &&& stand_at(bytes, 33 + text.len() as int, sha256)
                },
                MessageView::FileChunk { transfer_id, offset, data, sha256 } => {
                    &&& bytes.len() == 61 + data.len()
                    &&& bytes[0] == 11
                    &&& stand_at(bytes, 1, transfer_id)
                    &&& number_at(bytes, 17, 8) == offset
                    &&& number_at(bytes, 25, 4) == data.len()
                    &&& stand_at(bytes, 29, data)
                    &&& stand_at(bytes, 29 + data.len() as int, sha256)
                },
                MessageView::FileAck { transfer_id, next_offset } => {
                    &&& bytes.len() == 25
                    &&& bytes[0] == 12
                    &&& stand_at(bytes, 1, transfer_id)
                    &&& number_at(bytes, 17, 8) == next_offset
                },
                _ => true,
            }
        }),
{
    let bytes = message_bytes(message);
    lemma_all_be_bytes_len();
    lemma_byte_range();
    match message {
        MessageView::FileOffer { transfer_id, name, size, chunk_size, sha256 } => {
            let text = encode_utf8(name);
            let end = 21 + text.len() as int;
            assert(bytes.subrange(17, 21) =~= be_bytes(text.len(), 4));
            lemma_field(bytes, 17, text.len(), 4);
            assert(bytes.subrange(end, end + 8) =~= be_bytes(size as nat, 8));
            lemma_field(bytes, end, size as nat, 8);
            assert(bytes.subrange(end + 8, end + 12) =~= be_bytes(chunk_size as nat, 4));
            lemma_field(bytes, end + 8, chunk_size as nat, 4);
            assert forall|i: int| 0 <= i < text.len() implies #[trigger] bytes[21 + i] == text[i] by {}
            assert forall|i: int| 0 <= i < 32 implies #[trigger] bytes[33 + text.len() + i]
                == sha256[i] by {}
        },
        MessageView::FileChunk { transfer_id, offset, data, sha256 } => {
            assert(bytes.subrange(17, 25) =~= be_bytes(offset as nat, 8));
            lemma_field(bytes, 17, offset as nat, 8);
            assert(bytes.subrange(25, 29) =~= be_bytes(data.len(), 4));
            lemma_field(bytes, 25, data.len(), 4);
            assert forall|i: int| 0 <= i < data.len() implies #[trigger] bytes[29 + i] == data[i] by {}
            assert forall|i: int| 0 <= i < 32 implies #[trigger] bytes[29 + data.len() + i]
                == sha256[i] by {}
        },
        MessageView::FileAck { transfer_id, next_offset } => {
            assert(bytes.subrange(17, 25) =~= be_bytes(next_offset as nat, 8));
            lemma_field(bytes, 17, next_offset as nat, 8);
        },
        _ => {},
    }
}

/// A message can be sent exactly where it takes no more than sixteen mebibytes and, if it is a region
/// update, has one rectangle at least and 256 at most.
#[verifier::spinoff_prover]
pub proof fn law_messages_of_a_size_are_sent(message: MessageView)
    ensures
        encode_failure(message) is None <==> {
            &&& message_bytes(message).len() <= 16_777_216
            &&& message is DesktopUpdate ==> 1 <= message->DesktopUpdate_regions.len() <= 256
        },
{
    lemma_all_be_bytes_len();
    assert(payload_len(message) <= message_bytes(message).len());
}

/// This is version two of the protocol, and every version two understands it.
pub proof fn law_versions_agree_on_the_major_number(version: ProtocolVersion)
    ensures
        this_version().major == 2,
        this_version().minor == 0,
        this_version().compatible(version) <==> version.major == 2,
        version.compatible(this_version()) <==> version.major == 2,
{
}

} // verus!
