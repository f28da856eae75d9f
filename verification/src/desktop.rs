//! Desktop capture, remote input, and adaptive stream policy.
pub mod convert;
pub mod datagram;
pub mod datagram_laws;
pub mod dirty;
pub mod envelope_laws;
pub mod input;
pub mod nal_datagram;
pub mod nal_datagram_laws;
pub mod pack_bits;
pub mod pending;
pub mod rate;
pub mod region;

pub use crate::media::FrameSize;
pub use convert::{message_to_packet, message_to_packet_ref, packet_to_message};
pub use dirty::DirtyRegionDetector;
pub use input::validate_input;
pub use rate::{RateController, RateSample, RateSettings};
pub use region::{
    changed_area, decode_region_payload, encode_region_update, REGION_ENCODING_PACK_BITS,
    REGION_ENCODING_RAW,
};
pub use datagram::{
    classify_video_datagram, packetize_video_message, VideoDatagramKind, VideoDatagramReassembler,
    VideoDatagramStats,
};
pub use nal_datagram::{packetize_h264_nal_message, H264NalDatagramReassembler};
