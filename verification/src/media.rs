//! Media data models and local processing pipelines.
pub mod frame;
pub mod h264;
pub mod nal;
pub mod output;
pub mod packet;
pub mod pipeline;
pub mod raw;
pub mod synthetic;

pub use frame::{
    CursorShape, CursorShapeKind, CursorUpdate, DamageRect, FrameLayout, FrameMetadata, FrameSize,
    PixelFormat, VideoFrame,
};
pub use h264::{
    DecoderCapabilities, EncoderCapabilities, EncoderSettings, OpenH264Decoder, OpenH264Encoder,
    QpRange,
};
pub use nal::{h264_access_unit_is_keyframe, split_h264_nal_units};
pub use packet::{EncodeOutcome, EncodedVideoPacket, VideoCodec};
pub use pipeline::{
    FrameSink, FrameSource, LoopbackPipeline, PipelineStats, VideoDecoder, VideoEncoder,
};
pub use raw::{RawVideoDecoder, RawVideoEncoder};
pub use synthetic::{ChecksumSink, SyntheticFrameSource};
pub use output::{bmp_bytes, LastFrameSink};
