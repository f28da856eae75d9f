//! Video packets as protocol messages and back.
use crate::error::{DcError, DcErrorView};
use crate::media::frame::{
    layout_failure, lemma_same_layout, FrameLayout, FrameSize, PixelFormat,
};
use crate::media::packet::{empty_packet, EncodedVideoPacket, PacketView, VideoCodec};
use crate::protocol::types::{MessageView, WireMessage};
use crate::time::Duration;
use vstd::prelude::*;

verus! {

/// The number of a codec on the wire.
pub open spec fn codec_number(codec: VideoCodec) -> u8 {
    match codec {
        VideoCodec::Raw => 0,
        VideoCodec::H264 => 1,
    }
}

/// The number of a pixel format on the wire.
pub open spec fn format_number(format: PixelFormat) -> u8 {
    match format {
        PixelFormat::Rgb24 => 0,
        PixelFormat::Bgra32 => 1,
        PixelFormat::I420 => 2,
    }
}

/// The pixel format with the given number.
pub open spec fn format_of(number: u8) -> PixelFormat {
    if number == 0 {
        PixelFormat::Rgb24
    } else if number == 1 {
        PixelFormat::Bgra32
    } else {
        PixelFormat::I420
    }
}

/// The message that carries a packet; the timestamp is cut to whole milliseconds.
pub open spec fn video_message(packet: PacketView) -> MessageView {
    MessageView::Video {
        codec: codec_number(packet.codec),
        sequence: packet.sequence,
        timestamp_millis: (packet.timestamp.nanos / 1_000_000) as u64,
        keyframe: packet.keyframe,
        width: packet.source_layout.width(),
        height: packet.source_layout.height(),
        pixel_format: format_number(packet.source_layout.pixel_format()),
        stride: packet.source_layout.stride() as u32,
        data: packet.data,
    }
}

/// Why a packet cannot be carried, if it cannot.
pub open spec fn packet_failure(packet: PacketView) -> Option<DcErrorView> {
    if packet.timestamp.nanos / 1_000_000 > u64::MAX {
        Some(DcErrorView::InvalidInput("frame timestamp exceeds protocol range"@))
    } else if packet.source_layout.stride() > u32::MAX {
        Some(DcErrorView::InvalidInput("frame stride exceeds protocol range"@))
    } else {
        None
    }
}

pub fn packet_to_message(packet: &EncodedVideoPacket) -> (result: Result<WireMessage, DcError>)
    ensures
        match result {
            Ok(message) => packet_failure(packet@) is None && message@ == video_message(packet@),
            Err(e) => packet_failure(packet@) == Some(e@),
        },
{
    let layout = packet.source_layout();
    let codec: u8 = match packet.codec() {
        VideoCodec::Raw => 0,
        VideoCodec::H264 => 1,
    };
    let pixel_format: u8 = match layout.pixel_format() {
        PixelFormat::Rgb24 => 0,
        PixelFormat::Bgra32 => 1,
        PixelFormat::I420 => 2,
    };
    let millis: u128 = packet.timestamp().as_millis();
    if millis > 0xffff_ffff_ffff_ffff {
        return Err(DcError::invalid_input("frame timestamp exceeds protocol range"));
    }
    let stride: usize = layout.stride();
    if stride as u64 > 0xffff_ffff {
        return Err(DcError::invalid_input("frame stride exceeds protocol range"));
    }
    let size = layout.size();
    Ok(
        WireMessage::Video {
            codec,
            sequence: packet.sequence(),
            timestamp_millis: millis as u64,
            keyframe: packet.is_keyframe(),
            width: size.width(),
            height: size.height(),
            pixel_format,
            stride: stride as u32,
            data: vstd::slice::slice_to_vec(packet.data()),
        },
    )
}

/// Why a message carries no packet, if it carries none.
pub open spec fn message_failure(message: MessageView) -> Option<DcErrorView> {
    match message {
        MessageView::Video { codec, width, height, pixel_format, stride, data, .. } => {
            if codec > 1 {
                Some(DcErrorView::Codec("unknown video codec"@))
            } else if pixel_format > 2 {
                Some(DcErrorView::Codec("unknown pixel format"@))
            } else if width == 0 || height == 0 {
                Some(DcErrorView::InvalidInput("frame width and height must be non-zero"@))
            } else if layout_failure(
                width,
                height,
                format_of(pixel_format),
                stride as int,
            ) is Some {
                layout_failure(width, height, format_of(pixel_format), stride as int)
            } else if data.len() == 0 {
                Some(empty_packet())
            } else {
                None
            }
        },
        _ => Some(DcErrorView::InvalidInput("expected video message"@)),
    }
}

/// The packet holds what the message carries.
pub open spec fn carries(message: MessageView, packet: PacketView) -> bool {
    &&& message matches MessageView::Video {
        codec,
        sequence,
        timestamp_millis,
        keyframe,
        width,
        height,
        pixel_format,
        stride,
        data,
    } && {
        &&& codec_number(packet.codec) == codec
        &&& packet.sequence == sequence
        &&& packet.timestamp.nanos == timestamp_millis * 1_000_000
        &&& packet.keyframe == keyframe
        &&& packet.source_layout.width() == width
        &&& packet.source_layout.height() == height
        &&& packet.source_layout.pixel_format() == format_of(pixel_format)
        &&& packet.source_layout.stride() == stride
        &&& packet.data == data
        &&& packet.facts()
    }
}

fn packet_from_parts(
    codec: u8,
    sequence: u64,
    timestamp_millis: u64,
    keyframe: bool,
    width: u32,
    height: u32,
    pixel_format: u8,
    stride: u32,
    data: Vec<u8>,
) -> (result: Result<EncodedVideoPacket, DcError>)
    ensures
        ({
            let message = MessageView::Video {
                codec,
                sequence,
                timestamp_millis,
                keyframe,
                width,
                height,
                pixel_format,
                stride,
                data: data@,
            };
            match result {
                Ok(packet) => message_failure(message) is None && carries(message, packet@),
                Err(e) => message_failure(message) == Some(e@),
            }
        }),
{
    let codec = match codec {
        0 => VideoCodec::Raw,
        1 => VideoCodec::H264,
        _ => {
            return Err(DcError::codec("unknown video codec"));
        },
    };
    let pixel_format = match pixel_format {
        0 => PixelFormat::Rgb24,
        1 => PixelFormat::Bgra32,
        2 => PixelFormat::I420,
        _ => {
            return Err(DcError::codec("unknown pixel format"));
        },
    };
    let size = FrameSize::new(width, height)?;
    let layout = FrameLayout::with_stride(size, pixel_format, stride as usize)?;
    EncodedVideoPacket::new(
        codec,
        sequence,
        Duration::from_millis(timestamp_millis),
        keyframe,
        layout,
        data,
    )
}

pub fn message_to_packet(message: WireMessage) -> (result: Result<EncodedVideoPacket, DcError>)
    ensures
        match result {
            Ok(packet) => message_failure(message@) is None && carries(message@, packet@),
            Err(e) => message_failure(message@) == Some(e@),
        },
{
    match message {
        WireMessage::Video {
            codec,
            sequence,
            timestamp_millis,
            keyframe,
            width,
            height,
            pixel_format,
            stride,
            data,
        } => packet_from_parts(
            codec,
            sequence,
            timestamp_millis,
            keyframe,
            width,
            height,
            pixel_format,
            stride,
            data,
        ),
        _ => Err(DcError::invalid_input("expected video message")),
    }
}

/// Decode a video message without cloning the message envelope. The encoded
/// payload is copied once into the owned packet required by the decoder.
pub fn message_to_packet_ref(message: &WireMessage) -> (result: Result<
    EncodedVideoPacket,
    DcError,
>)
    ensures
        match result {
            Ok(packet) => message_failure(message@) is None && carries(message@, packet@),
            Err(e) => message_failure(message@) == Some(e@),
        },
{
    match message {
        WireMessage::Video {
            codec,
            sequence,
            timestamp_millis,
            keyframe,
            width,
            height,
            pixel_format,
            stride,
            data,
        } => packet_from_parts(
            *codec,
            *sequence,
            *timestamp_millis,
            *keyframe,
            *width,
            *height,
            *pixel_format,
            *stride,
            vstd::slice::slice_to_vec(data.as_slice()),
        ),
        _ => Err(DcError::invalid_input("expected video message")),
    }
}

/// A packet that was turned into a message comes back from it: the same packet, with its
/// timestamp cut to whole milliseconds.
pub proof fn law_packet_survives_message(packet: PacketView)
    requires
        packet.facts(),
        packet_failure(packet) is None,
    ensures
        message_failure(video_message(packet)) is None,
        forall|back: PacketView| #[trigger]
            carries(video_message(packet), back) ==> back == (PacketView {
                timestamp: Duration {
                    nanos: (packet.timestamp.nanos / 1_000_000 * 1_000_000) as u128,
                },
                ..packet
            }),
{
    assert forall|back: PacketView| #[trigger] carries(video_message(packet), back) implies back
        == (PacketView {
        timestamp: Duration { nanos: (packet.timestamp.nanos / 1_000_000 * 1_000_000) as u128 },
        ..packet
    }) by {
        lemma_same_layout(back.source_layout, packet.source_layout);
    }
}

/// A picture is taken from the network exactly where its codec and format are known, its rows fit its
/// stride and there are bytes to decode.
pub proof fn law_valid_pictures_are_taken(message: MessageView)
    requires
        message is Video,
        4 * message->Video_width <= usize::MAX,
        message->Video_stride * message->Video_height <= usize::MAX,
    ensures
        message_failure(message) is None <==> {
            &&& message->Video_codec == 0 || message->Video_codec == 1
            &&& message->Video_width > 0
            &&& message->Video_height > 0
            &&& message->Video_data.len() > 0
            &&& (message->Video_pixel_format == 0 && message->Video_stride >= 3
                * message->Video_width) || (message->Video_pixel_format == 1
                && message->Video_stride >= 4 * message->Video_width)
        },
{
}

/// A packet and the message that carries it say the same: codec 1 is H.264 and 0 raw pixels, format 0
/// has three bytes a pixel and 1 four, and time is told in milliseconds.
pub proof fn law_message_says_what_the_packet_says(packet: PacketView)
    requires
        packet.facts(),
        packet.timestamp.nanos / 1_000_000 <= u64::MAX,
        packet.source_layout.stride() <= u32::MAX,
    ensures
        packet_failure(packet) is None,
        ({
            let message = video_message(packet);
            &&& message is Video
            &&& message->Video_codec == 1 <==> packet.codec == VideoCodec::H264
            &&& message->Video_codec == 0 <==> packet.codec == VideoCodec::Raw
            &&& message->Video_sequence == packet.sequence
            &&& message->Video_timestamp_millis * 1_000_000 <= packet.timestamp.nanos
            &&& packet.timestamp.nanos < (message->Video_timestamp_millis + 1) * 1_000_000
            &&& message->Video_keyframe == packet.keyframe
            &&& message->Video_width == packet.source_layout.width()
            &&& message->Video_height == packet.source_layout.height()
            &&& message->Video_stride == packet.source_layout.stride()
            &&& message->Video_pixel_format == 0 <==> packet.source_layout.pixel_format()
                == PixelFormat::Rgb24
            &&& message->Video_pixel_format == 1 <==> packet.source_layout.pixel_format()
                == PixelFormat::Bgra32
            &&& message->Video_data == packet.data
        }),
{
}

/// What is taken from a picture's message is what the message says.
pub proof fn law_packet_says_what_the_message_says(message: MessageView, packet: PacketView)
    requires
        carries(message, packet),
    ensures
        message is Video,
        packet.codec == VideoCodec::H264 <==> message->Video_codec == 1,
        packet.codec == VideoCodec::Raw <==> message->Video_codec == 0,
        packet.sequence == message->Video_sequence,
        packet.timestamp.nanos == message->Video_timestamp_millis * 1_000_000,
        packet.keyframe == message->Video_keyframe,
        packet.source_layout.width() == message->Video_width,
        packet.source_layout.height() == message->Video_height,
        packet.source_layout.stride() == message->Video_stride,
        message->Video_pixel_format == 0 ==> packet.source_layout.pixel_format()
            == PixelFormat::Rgb24,
        message->Video_pixel_format == 1 ==> packet.source_layout.pixel_format()
            == PixelFormat::Bgra32,
        packet.data == message->Video_data,
{
}

} // verus!
