//! The codec that carries pixels as they are.
use crate::error::{DcError, DcErrorView};
use crate::media::frame::{buffer_length_failure, no_metadata, FrameView, VideoFrame};
use crate::media::packet::{empty_packet, raw_packet, EncodedVideoPacket, PacketView, VideoCodec};
use crate::media::pipeline::{VideoDecoder, VideoEncoder};
use crate::text::joined;
use vstd::prelude::*;

verus! {

#[derive(Debug, Default)]
pub struct RawVideoEncoder;

impl VideoEncoder for RawVideoEncoder {
    open spec fn declared_codec(&self) -> VideoCodec {
        VideoCodec::Raw
    }

    open spec fn encodes(
        &self,
        after: &Self,
        frame: VideoFrame,
        result: Result<EncodedVideoPacket, DcError>,
    ) -> bool {
        match result {
            Ok(packet) => frame@.data.len() > 0 && packet@ == raw_packet(frame@),
            Err(e) => frame@.data.len() == 0 && e@ == empty_packet(),
        }
    }

    fn codec(&self) -> VideoCodec {
        VideoCodec::Raw
    }

    fn encode(&mut self, frame: VideoFrame) -> Result<EncodedVideoPacket, DcError> {
        EncodedVideoPacket::from_raw_frame(frame)
    }
}

#[derive(Debug, Default)]
pub struct RawVideoDecoder;

/// The frame that a raw packet carries.
pub open spec fn raw_frame(packet: PacketView) -> FrameView {
    FrameView {
        sequence: packet.sequence,
        timestamp: packet.timestamp,
        layout: packet.source_layout,
        data: packet.data,
        metadata: no_metadata(),
    }
}

/// The failure for a packet of another codec.
pub open spec fn not_raw(codec: VideoCodec) -> DcErrorView {
    DcErrorView::InvalidInput("raw decoder received "@ + codec.label() + " data"@)
}

impl VideoDecoder for RawVideoDecoder {
    open spec fn declared_codec(&self) -> VideoCodec {
        VideoCodec::Raw
    }

    open spec fn decodes(
        &self,
        after: &Self,
        packet: EncodedVideoPacket,
        result: Result<VideoFrame, DcError>,
    ) -> bool {
        match result {
            Ok(frame) => packet@.codec == VideoCodec::Raw && frame@ == raw_frame(packet@)
                && packet@.data.len() == packet@.source_layout.data_len(),
            Err(e) => if packet@.codec != VideoCodec::Raw {
                e@ == not_raw(packet@.codec)
            } else {
                &&& packet@.data.len() != packet@.source_layout.data_len()
                &&& e@ == buffer_length_failure(
                    packet@.data.len(),
                    packet@.source_layout.data_len() as nat,
                )
            },
        }
    }

    fn codec(&self) -> VideoCodec {
        VideoCodec::Raw
    }

    fn decode(&mut self, packet: EncodedVideoPacket) -> Result<VideoFrame, DcError> {
        let codec = packet.codec();
        if codec != VideoCodec::Raw {
            let message = joined("raw decoder received ", codec.name());
            let message = joined(message.as_str(), " data");
            return Err(DcError::InvalidInput(message));
        }
        let sequence: u64 = packet.sequence();
        let timestamp = packet.timestamp();
        let layout = packet.source_layout();
        VideoFrame::new(sequence, timestamp, layout, packet.into_data())
    }
}

/// Raw coding loses nothing: a frame that was encoded is decoded with the same sequence, time,
/// layout and pixels.
pub proof fn law_raw_coding_is_lossless(
    frame: VideoFrame,
    packet: EncodedVideoPacket,
    decoded: Result<VideoFrame, DcError>,
)
    requires
        frame@.facts(),
        RawVideoEncoder.encodes(&RawVideoEncoder, frame, Ok(packet)),
        RawVideoDecoder.decodes(&RawVideoDecoder, packet, decoded),
    ensures
        decoded matches Ok(shown) && shown@ == (FrameView { metadata: no_metadata(), ..frame@ }),
{
}

} // verus!
