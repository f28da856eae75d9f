//! H.264 through Windows Media Foundation: what is handed to a transform, and what becomes of its
//! output. The transform itself is driven by the caller.
use crate::error::{DcError, DcErrorView};
use crate::media::frame::{FrameLayout, FrameView, PixelFormat, VideoFrame};
use crate::media::h264::{DecoderCapabilities, EncoderCapabilities};
use crate::media::nal::{
    annex_b, contents, h264_access_unit_is_keyframe, holds_keyframe, nal_units, put_unit,
    split_h264_nal_units,
};
use crate::media::packet::{
    EncodeOutcome, EncodedVideoPacket, OutcomeView, PacketView, VideoCodec,
};
use crate::platform::nv12::{
    bgra_to_nv12, convertible, nv12_planes, nv12_to_frame, planes_refusal, shows_planes,
};
use crate::time::Duration;
use vstd::prelude::*;

verus! {

/// The units of 100 nanoseconds in a second.
pub const HNS_PER_SECOND: u64 = 10_000_000;

/// What a transform can do.
#[derive(Clone, Copy, Debug, Eq, PartialEq, Structural)]
pub struct TransformFeatures {
    pub hardware_accelerated: bool,
    pub asynchronous: bool,
    pub supports_force_keyframe: bool,
}

/// Whether a size can be encoded: not zero, and even.
pub open spec fn even_size(width: u32, height: u32) -> bool {
    &&& width != 0
    &&& height != 0
    &&& width % 2 == 0
    &&& height % 2 == 0
}

/// The failure for a size that cannot be encoded.
pub open spec fn size_refusal() -> DcErrorView {
    DcErrorView::InvalidInput("Media Foundation H.264 dimensions must be non-zero and even"@)
}

/// Why an encoder is not opened, if it is not.
pub open spec fn encoder_refusal(
    width: u32,
    height: u32,
    bitrate: u32,
    frames_per_second: u32,
) -> Option<DcErrorView> {
    if !even_size(width, height) {
        Some(size_refusal())
    } else if bitrate == 0 || frames_per_second == 0 {
        Some(
            DcErrorView::InvalidInput(
                "Media Foundation H.264 bitrate and frame rate must be non-zero"@,
            ),
        )
    } else {
        None
    }
}

/// Checks what an encoder is asked for, before a transform is looked for.
pub fn check_encoder(width: u32, height: u32, bitrate: u32, frames_per_second: u32) -> (result:
    Result<(), DcError>)
    ensures
        match result {
            Ok(_) => encoder_refusal(width, height, bitrate, frames_per_second) is None,
            Err(error) => encoder_refusal(width, height, bitrate, frames_per_second) == Some(
                error@,
            ),
        },
{
    if width == 0 || height == 0 || width % 2 != 0 || height % 2 != 0 {
        return Err(
            DcError::invalid_input("Media Foundation H.264 dimensions must be non-zero and even"),
        );
    }
    if bitrate == 0 || frames_per_second == 0 {
        return Err(
            DcError::invalid_input(
                "Media Foundation H.264 bitrate and frame rate must be non-zero",
            ),
        );
    }
    Ok(())
}

/// The bytes of the planes of a frame, if they can be counted with 32 bits on the way.
pub open spec fn sample_bytes(width: u32, height: u32) -> Option<u32> {
    if width * height * 3 > u32::MAX {
        None
    } else {
        Some((width * height * 3 / 2) as u32)
    }
}

fn count_sample_bytes(width: u32, height: u32) -> (bytes: Option<u32>)
    ensures
        bytes == sample_bytes(width, height),
{
    proof {
        assert(0 <= width * height <= 0xffff_ffff * 0xffff_ffff) by (nonlinear_arith)
            requires
                0 <= width <= 0xffff_ffff,
                0 <= height <= 0xffff_ffff,
        ;
    }
    let bytes: u128 = width as u128 * height as u128 * 3;
    if bytes > u32::MAX as u128 {
        None
    } else {
        Some((bytes / 2) as u32)
    }
}

/// The size of the samples that an encoder takes.
pub fn input_sample_size(width: u32, height: u32) -> (result: Result<u32, DcError>)
    ensures
        match result {
            Ok(bytes) => sample_bytes(width, height) == Some(bytes),
            Err(error) => sample_bytes(width, height) is None && error@
                == DcErrorView::InvalidInput("NV12 frame size overflow"@),
        },
{
    match count_sample_bytes(width, height) {
        Some(bytes) => Ok(bytes),
        None => Err(DcError::invalid_input("NV12 frame size overflow")),
    }
}

/// A property of an encoder that may be set.
#[derive(Clone, Copy, Debug, Eq, PartialEq, Structural)]
pub enum CodecSetting {
    ConstantBitrate,
    MeanBitrate,
    MaxBitrate,
    BufferSize,
    LowLatency,
    RealTime,
    AllowFrameDrops,
    BFrames,
    DisplayRemoting,
    MaximumQp,
    KeyframeDistance,
}

/// A property and the value that it is given. The mode and the scenario are switched on where
/// their value is one.
#[derive(Clone, Copy, Debug, Eq, PartialEq, Structural)]
pub struct CodecControl {
    pub setting: CodecSetting,
    pub value: u32,
}

/// A short-delay policy with a bounded buffer of one second of coded data, and a keyframe at
/// least every five seconds.
pub open spec fn low_latency_controls(bitrate: u32, frames_per_second: u32) -> Seq<CodecControl> {
    let buffer = (bitrate + 7) / 8;
    let distance = if frames_per_second * 5 > u32::MAX {
        u32::MAX as int
    } else {
        frames_per_second * 5
    };
    seq![
        CodecControl { setting: CodecSetting::ConstantBitrate, value: 1 },
        CodecControl { setting: CodecSetting::MeanBitrate, value: bitrate },
        CodecControl { setting: CodecSetting::MaxBitrate, value: bitrate },
        CodecControl { setting: CodecSetting::BufferSize, value: buffer as u32 },
        CodecControl { setting: CodecSetting::LowLatency, value: 1 },
        CodecControl { setting: CodecSetting::RealTime, value: 1 },
        CodecControl { setting: CodecSetting::AllowFrameDrops, value: 1 },
        CodecControl { setting: CodecSetting::BFrames, value: 0 },
        CodecControl { setting: CodecSetting::DisplayRemoting, value: 1 },
        CodecControl { setting: CodecSetting::MaximumQp, value: 51 },
        CodecControl { setting: CodecSetting::KeyframeDistance, value: distance as u32 },
    ]
}

/// The properties that an encoder is given, each where it accepts it.
pub fn codec_controls(bitrate: u32, frames_per_second: u32) -> (controls: Vec<CodecControl>)
    ensures
        controls@ == low_latency_controls(bitrate, frames_per_second),
{
    let buffer: u32 = ((bitrate as u64 + 7) / 8) as u32;
    let distance: u32 = if frames_per_second as u64 * 5 > u32::MAX as u64 {
        u32::MAX
    } else {
        frames_per_second * 5
    };
    let controls: Vec<CodecControl> = vec![
        CodecControl { setting: CodecSetting::ConstantBitrate, value: 1 },
        CodecControl { setting: CodecSetting::MeanBitrate, value: bitrate },
        CodecControl { setting: CodecSetting::MaxBitrate, value: bitrate },
        CodecControl { setting: CodecSetting::BufferSize, value: buffer },
        CodecControl { setting: CodecSetting::LowLatency, value: 1 },
        CodecControl { setting: CodecSetting::RealTime, value: 1 },
        CodecControl { setting: CodecSetting::AllowFrameDrops, value: 1 },
        CodecControl { setting: CodecSetting::BFrames, value: 0 },
        CodecControl { setting: CodecSetting::DisplayRemoting, value: 1 },
        CodecControl { setting: CodecSetting::MaximumQp, value: 51 },
        CodecControl { setting: CodecSetting::KeyframeDistance, value: distance },
    ];
    assert(controls@ =~= low_latency_controls(bitrate, frames_per_second));
    controls
}

/// A time in units of 100 nanoseconds, if a transform can take it.
pub open spec fn sample_time(time: Duration) -> Option<i64> {
    if time.nanos / 100 > i64::MAX {
        None
    } else {
        Some((time.nanos / 100) as i64)
    }
}

fn to_sample_time(time: Duration) -> (result: Option<i64>)
    ensures
        result == sample_time(time),
{
    let units: u128 = time.nanos / 100;
    if units > i64::MAX as u128 {
        None
    } else {
        Some(units as i64)
    }
}

/// What a transform said when it was asked for an event.
#[derive(Clone, Copy, Debug, Eq, PartialEq, Structural)]
pub enum TransformEvent {
    Nothing,
    HaveOutput,
    Failed,
    Other,
}

/// What to do next while waiting for output.
#[derive(Clone, Copy, Debug, Eq, PartialEq, Structural)]
pub enum WaitStep {
    /// Sleep for a millisecond and ask again.
    Sleep,
    AskAgain,
    ReadOutput,
    Fail,
}

/// How long output is waited for.
pub open spec fn output_patience() -> int {
    2_000_000_000
}

/// Whether waiting has taken too long; asked before each event.
pub fn waited_too_long(waited: Duration) -> (too_long: bool)
    ensures
        too_long == (waited.nanos >= output_patience()),
{
    waited.nanos >= 2_000_000_000
}

/// What follows from an event.
pub open spec fn step_after(event: TransformEvent) -> WaitStep {
    match event {
        TransformEvent::Nothing => WaitStep::Sleep,
        TransformEvent::HaveOutput => WaitStep::ReadOutput,
        TransformEvent::Failed => WaitStep::Fail,
        TransformEvent::Other => WaitStep::AskAgain,
    }
}

/// What follows from an event.
pub fn wait_step(event: TransformEvent) -> (step: WaitStep)
    ensures
        step == step_after(event),
        step == (match event {
            TransformEvent::Nothing => WaitStep::Sleep,
            TransformEvent::HaveOutput => WaitStep::ReadOutput,
            TransformEvent::Failed => WaitStep::Fail,
            TransformEvent::Other => WaitStep::AskAgain,
        }),
{
    match event {
        TransformEvent::Nothing => WaitStep::Sleep,
        TransformEvent::HaveOutput => WaitStep::ReadOutput,
        TransformEvent::Failed => WaitStep::Fail,
        TransformEvent::Other => WaitStep::AskAgain,
    }
}

/// What an encoding transform is given for a frame.
pub struct EncoderSample {
    pub planes: Vec<u8>,
    pub time: i64,
    pub duration: i64,
}

/// The state of an encoder around its transform.
pub struct WindowsMediaFoundationH264Encoder {
    width: u32,
    height: u32,
    frames_per_second: u32,
    first_output: bool,
    features: TransformFeatures,
}

/// The contents of a [`WindowsMediaFoundationH264Encoder`].
pub struct EncoderState {
    pub width: u32,
    pub height: u32,
    pub frames_per_second: u32,
    pub first_output: bool,
    pub features: TransformFeatures,
}

impl View for WindowsMediaFoundationH264Encoder {
    type V = EncoderState;

    closed spec fn view(&self) -> EncoderState {
        EncoderState {
            width: self.width,
            height: self.height,
            frames_per_second: self.frames_per_second,
            first_output: self.first_output,
            features: self.features,
        }
    }
}

impl EncoderState {
    /// The encoder after a frame.
    pub open spec fn after(self, sent: bool) -> EncoderState {
        EncoderState { first_output: self.first_output && !sent, ..self }
    }

    /// What holds of every encoder.
    pub open spec fn facts(self) -> bool {
        &&& even_size(self.width, self.height)
        &&& self.frames_per_second > 0
    }

    /// How long a frame is shown, in tenths of a microsecond.
    pub open spec fn frame_duration(self) -> int {
        10_000_000int / self.frames_per_second as int
    }

    /// How many bytes are set aside for an encoded frame.
    pub open spec fn output_bytes(self, asked: u32) -> int {
        let twice = 2 * (self.width * self.height);
        let kept = if twice > u32::MAX {
            u32::MAX as int
        } else {
            twice
        };
        if asked > kept {
            asked as int
        } else {
            kept
        }
    }

    /// Why a frame is not encoded, if it is not.
    pub open spec fn frame_refusal(self, frame: FrameView) -> Option<DcErrorView> {
        if frame.layout.width() != self.width || frame.layout.height() != self.height {
            Some(
                DcErrorView::InvalidInput(
                    "Media Foundation encoder received a frame with changing dimensions"@,
                ),
            )
        } else if frame.layout.pixel_format() != PixelFormat::Bgra32 {
            Some(
                DcErrorView::Unsupported(
                    "Media Foundation encoder currently accepts BGRA32 frames only"@,
                ),
            )
        } else if nv12_planes(frame).len() > u32::MAX {
            Some(
                DcErrorView::InvalidInput("NV12 frame exceeds Media Foundation buffer size"@),
            )
        } else if sample_time(frame.timestamp) is None {
            Some(DcErrorView::InvalidInput("frame timestamp exceeds Media Foundation range"@))
        } else {
            None
        }
    }

    /// What the bytes that a transform put out for a frame mean. The first output is taken for a
    /// keyframe without a look at it.
    pub open spec fn outcome(self, frame: FrameView, data: Seq<u8>) -> Result<
        OutcomeView,
        DcErrorView,
    > {
        if data.len() == 0 {
            Ok(OutcomeView::Skipped)
        } else if !self.first_output && nal_units(data) is Err {
            Err(nal_units(data)->Err_0)
        } else {
            Ok(
                OutcomeView::Packet(
                    PacketView {
                        codec: VideoCodec::H264,
                        sequence: frame.sequence,
                        timestamp: frame.timestamp,
                        keyframe: self.first_output || holds_keyframe(nal_units(data)->Ok_0),
                        source_layout: frame.layout,
                        data,
                    },
                ),
            )
        }
    }
}

/// Whether two outcomes are alike but for the stride of the source.
pub open spec fn same_outcome(
    result: Result<EncodeOutcome, DcError>,
    expected: Result<OutcomeView, DcErrorView>,
) -> bool {
    match (result, expected) {
        (Ok(EncodeOutcome::Skipped), Ok(OutcomeView::Skipped)) => true,
        (Ok(EncodeOutcome::Packet(packet)), Ok(OutcomeView::Packet(view))) => {
            &&& packet@ == (PacketView { source_layout: packet@.source_layout, ..view })
            &&& packet@.source_layout.width() == view.source_layout.width()
            &&& packet@.source_layout.height() == view.source_layout.height()
            &&& packet@.source_layout.pixel_format() == PixelFormat::Bgra32
            &&& packet@.source_layout.stride() == 4 * view.source_layout.width()
        },
        (Err(error), Err(failure)) => error@ == failure,
        _ => false,
    }
}

impl WindowsMediaFoundationH264Encoder {
    #[verifier::type_invariant]
    spec fn well_formed(self) -> bool {
        self@.facts()
    }

    /// An encoder around a transform that was configured for the same arguments.
    pub fn new(
        width: u32,
        height: u32,
        bitrate: u32,
        frames_per_second: u32,
        features: TransformFeatures,
    ) -> (result: Result<WindowsMediaFoundationH264Encoder, DcError>)
        ensures
            match result {
                Ok(encoder) => {
                    &&& encoder_refusal(width, height, bitrate, frames_per_second) is None
                    &&& encoder@ == (EncoderState {
                        width,
                        height,
                        frames_per_second,
                        first_output: true,
                        features,
                    })
                },
                Err(error) => encoder_refusal(width, height, bitrate, frames_per_second) == Some(
                    error@,
                ),
            },
    {
        check_encoder(width, height, bitrate, frames_per_second)?;
        Ok(
            WindowsMediaFoundationH264Encoder {
                width,
                height,
                frames_per_second,
                first_output: true,
                features,
            },
        )
    }

    pub fn backend_name(&self) -> (name: &'static str)
        ensures
            name@ == "windows-media-foundation-h264"@,
    {
        "windows-media-foundation-h264"
    }

    pub fn codec(&self) -> (codec: VideoCodec)
        ensures
            codec == VideoCodec::H264,
    {
        VideoCodec::H264
    }

    pub fn capabilities(&self) -> (capabilities: EncoderCapabilities)
        ensures
            capabilities.backend@ == "windows-media-foundation-h264"@,
            capabilities.codec == VideoCodec::H264,
            capabilities.hardware_accelerated == self@.features.hardware_accelerated,
            !capabilities.zero_copy_input,
            capabilities.low_latency,
            capabilities.supports_force_keyframe == self@.features.supports_force_keyframe,
    {
        EncoderCapabilities {
            backend: self.backend_name(),
            codec: VideoCodec::H264,
            hardware_accelerated: self.features.hardware_accelerated,
            zero_copy_input: false,
            low_latency: true,
            supports_force_keyframe: self.features.supports_force_keyframe,
        }
    }

    /// What the transform is given for a frame.
    pub fn prepare(&self, frame: &VideoFrame) -> (result: Result<EncoderSample, DcError>)
        ensures
            match result {
                Ok(sample) => {
                    &&& self@.frame_refusal(frame@) is None
                    &&& sample.planes@ == nv12_planes(frame@)
                    &&& sample_time(frame@.timestamp) == Some(sample.time)
                    &&& sample.duration == HNS_PER_SECOND / (self@.frames_per_second as u64)
                    &&& sample.duration == self@.frame_duration()
                },
                Err(error) => self@.frame_refusal(frame@) == Some(error@),
            },
    {
        proof {
            use_type_invariant(self);
        }
        let layout = frame.layout();
        let size = layout.size();
        if size.width() != self.width || size.height() != self.height {
            return Err(
                DcError::invalid_input(
                    "Media Foundation encoder received a frame with changing dimensions",
                ),
            );
        }
        if layout.pixel_format() != PixelFormat::Bgra32 {
            return Err(
                DcError::unsupported(
                    "Media Foundation encoder currently accepts BGRA32 frames only",
                ),
            );
        }
        let planes = bgra_to_nv12(frame);
        if planes.len() as u64 > u32::MAX as u64 {
            return Err(
                DcError::invalid_input("NV12 frame exceeds Media Foundation buffer size"),
            );
        }
        match to_sample_time(frame.timestamp()) {
            Some(time) => Ok(
                EncoderSample {
                    planes,
                    time,
                    duration: (HNS_PER_SECOND / self.frames_per_second as u64) as i64,
                },
            ),
            None => Err(DcError::invalid_input("frame timestamp exceeds Media Foundation range")),
        }
    }

    /// The size of the buffer for output, at least as large as the transform asks for.
    pub fn output_size(&self, asked: u32) -> (bytes: u32)
        ensures
            ({
                let twice = if self@.width * self@.height > u32::MAX {
                    u32::MAX as int
                } else if 2 * (self@.width * self@.height) > u32::MAX {
                    u32::MAX as int
                } else {
                    2 * (self@.width * self@.height)
                };
                bytes == if asked > twice {
                    asked as int
                } else {
                    twice
                }
            }),
            bytes == self@.output_bytes(asked),
    {
        proof {
            assert(0 <= self.width * self.height <= 0xffff_ffff * 0xffff_ffff) by (nonlinear_arith)
                requires
                    0 <= self.width <= 0xffff_ffff,
                    0 <= self.height <= 0xffff_ffff,
            ;
        }
        let twice: u128 = 2 * (self.width as u128 * self.height as u128);
        let bytes: u32 = if twice > u32::MAX as u128 {
            u32::MAX
        } else {
            twice as u32
        };
        if asked > bytes {
            asked
        } else {
            bytes
        }
    }

    /// What the bytes that the transform put out for a frame mean. No bytes stand for a frame that
    /// was left out, as does a transform that wants more input.
    pub fn finish(&mut self, frame: &VideoFrame, data: Vec<u8>) -> (result: Result<
        EncodeOutcome,
        DcError,
    >)
        requires
            frame@.layout.pixel_format() == PixelFormat::Bgra32,
        ensures
            same_outcome(result, old(self)@.outcome(frame@, data@)),
            final(self)@ == (EncoderState {
                first_output: old(self)@.first_output && !(result matches Ok(
                    EncodeOutcome::Packet(_),
                )),
                ..old(self)@
            }),
            final(self)@ == old(self)@.after(result is Ok && result->Ok_0 is Packet),
    {
        proof {
            use_type_invariant(&*self);
        }
        if data.len() == 0 {
            return Ok(EncodeOutcome::Skipped);
        }
        let keyframe = if self.first_output {
            true
        } else {
            h264_access_unit_is_keyframe(data.as_slice())?
        };
        let given = frame.layout();
        let layout = match FrameLayout::packed(given.size(), PixelFormat::Bgra32) {
            Ok(layout) => layout,
            Err(error) => {
                proof {
                    let tight = 4 * given.width();
                    assert(tight * given.height() <= given.stride() * given.height())
                        by (nonlinear_arith)
                        requires
                            0 <= tight <= given.stride(),
                            0 <= given.height(),
                    ;
                    assert(false);
                }
                return Err(error);
            },
        };
        let packet = EncodedVideoPacket::new(
            VideoCodec::H264,
            frame.sequence(),
            frame.timestamp(),
            keyframe,
            layout,
            data,
        )?;
        self.first_output = false;
        Ok(EncodeOutcome::Packet(packet))
    }
}

/// What a decoding transform is given for a packet.
pub struct DecoderSample {
    pub data: Vec<u8>,
    pub time: i64,
}

/// The state of a decoder around its transform.
pub struct WindowsMediaFoundationH264Decoder {
    width: u32,
    height: u32,
    features: TransformFeatures,
}

/// The contents of a [`WindowsMediaFoundationH264Decoder`].
pub struct DecoderState {
    pub width: u32,
    pub height: u32,
    pub features: TransformFeatures,
}

impl View for WindowsMediaFoundationH264Decoder {
    type V = DecoderState;

    closed spec fn view(&self) -> DecoderState {
        DecoderState { width: self.width, height: self.height, features: self.features }
    }
}

impl DecoderState {
    /// Why a packet is not decoded, if it is not.
    pub open spec fn packet_refusal(self, packet: PacketView) -> Option<DcErrorView> {
        if packet.codec != VideoCodec::H264 {
            Some(
                DcErrorView::InvalidInput("Media Foundation decoder received non-H.264 data"@),
            )
        } else if packet.source_layout.width() != self.width || packet.source_layout.height()
            != self.height {
            Some(
                DcErrorView::InvalidInput(
                    "Media Foundation decoder received changing dimensions"@,
                ),
            )
        } else {
            match nal_units(packet.data) {
                Err(error) => Some(error),
                Ok(units) => if annex_b(units).len() > u32::MAX {
                    Some(DcErrorView::InvalidInput("H.264 sample is too large"@))
                } else if sample_time(packet.timestamp) is None {
                    Some(DcErrorView::InvalidInput("timestamp exceeds Media Foundation range"@))
                } else {
                    None
                },
            }
        }
    }
}

/// The byte stream of the units of an access unit, each behind a four-byte start code.
pub fn annex_b_sample(data: &[u8]) -> (result: Result<Vec<u8>, DcError>)
    ensures
        match result {
            Ok(sample) => nal_units(data@) matches Ok(units) && sample@ == annex_b(units),
            Err(error) => nal_units(data@) == Err::<Seq<Seq<u8>>, DcErrorView>(error@),
        },
{
    let units = split_h264_nal_units(data)?;
    let ghost all = contents(units@);
    let mut output: Vec<u8> = Vec::new();
    let mut index: usize = 0;
    assert(all.take(0) =~= Seq::empty());
    while index < units.len()
        invariant
            index <= units@.len(),
            all == contents(units@),
            nal_units(data@) == Ok::<Seq<Seq<u8>>, DcErrorView>(all),
            output@ == annex_b(all.take(index as int)),
        decreases units@.len() - index,
    {
        assert(all.take(index + 1).drop_last() =~= all.take(index as int));
        put_unit(&mut output, units[index]);
        index = index + 1;
    }
    assert(all.take(index as int) =~= all);
    Ok(output)
}

impl WindowsMediaFoundationH264Decoder {
    #[verifier::type_invariant]
    spec fn well_formed(self) -> bool {
        even_size(self.width, self.height)
    }

    /// A decoder around a transform that was configured for the same size.
    pub fn new(width: u32, height: u32, features: TransformFeatures) -> (result: Result<
        WindowsMediaFoundationH264Decoder,
        DcError,
    >)
        ensures
            match result {
                Ok(decoder) => even_size(width, height) && decoder@ == (DecoderState {
                    width,
                    height,
                    features,
                }),
                Err(error) => !even_size(width, height) && error@ == size_refusal(),
            },
    {
        if width == 0 || height == 0 || width % 2 != 0 || height % 2 != 0 {
            return Err(
                DcError::invalid_input(
                    "Media Foundation H.264 dimensions must be non-zero and even",
                ),
            );
        }
        Ok(WindowsMediaFoundationH264Decoder { width, height, features })
    }

    pub fn backend_name(&self) -> (name: &'static str)
        ensures
            name@ == "windows-media-foundation-h264-decoder"@,
    {
        "windows-media-foundation-h264-decoder"
    }

    pub fn codec(&self) -> (codec: VideoCodec)
        ensures
            codec == VideoCodec::H264,
    {
        VideoCodec::H264
    }

    pub fn capabilities(&self) -> (capabilities: DecoderCapabilities)
        ensures
            capabilities.backend@ == "windows-media-foundation-h264-decoder"@,
            capabilities.codec == VideoCodec::H264,
            capabilities.hardware_accelerated == self@.features.hardware_accelerated,
            !capabilities.zero_copy_output,
            capabilities.low_latency,
    {
        DecoderCapabilities {
            backend: self.backend_name(),
            codec: VideoCodec::H264,
            hardware_accelerated: self.features.hardware_accelerated,
            zero_copy_output: false,
            low_latency: true,
        }
    }

    /// What the transform is given for a packet.
    pub fn prepare(&self, packet: &EncodedVideoPacket) -> (result: Result<DecoderSample, DcError>)
        ensures
            match result {
                Ok(sample) => {
                    &&& self@.packet_refusal(packet@) is None
                    &&& sample.data@ == annex_b(nal_units(packet@.data)->Ok_0)
                    &&& sample_time(packet@.timestamp) == Some(sample.time)
                },
                Err(error) => self@.packet_refusal(packet@) == Some(error@),
            },
    {
        if packet.codec() != VideoCodec::H264 {
            return Err(
                DcError::invalid_input("Media Foundation decoder received non-H.264 data"),
            );
        }
        let size = packet.source_layout().size();
        if size.width() != self.width || size.height() != self.height {
            return Err(
                DcError::invalid_input("Media Foundation decoder received changing dimensions"),
            );
        }
        let data = annex_b_sample(packet.data())?;
        if data.len() as u64 > u32::MAX as u64 {
            return Err(DcError::invalid_input("H.264 sample is too large"));
        }
        match to_sample_time(packet.timestamp()) {
            Some(time) => Ok(DecoderSample { data, time }),
            None => Err(DcError::invalid_input("timestamp exceeds Media Foundation range")),
        }
    }

    /// The size of the buffer for output.
    pub fn output_size(&self) -> (result: Result<u32, DcError>)
        ensures
            match result {
                Ok(bytes) => sample_bytes(self@.width, self@.height) == Some(bytes),
                Err(error) => sample_bytes(self@.width, self@.height) is None && error@
                    == DcErrorView::InvalidInput("NV12 decoder output size overflow"@),
            },
    {
        match count_sample_bytes(self.width, self.height) {
            Some(bytes) => Ok(bytes),
            None => Err(DcError::invalid_input("NV12 decoder output size overflow")),
        }
    }

    /// The frame that the planes show which the transform put out for a packet.
    pub fn finish(&self, packet: &EncodedVideoPacket, planes: &[u8]) -> (result: Result<
        VideoFrame,
        DcError,
    >)
        ensures
            match result {
                Ok(frame) => planes_refusal(planes@, self@.width, self@.height) is None
                    && shows_planes(
                    frame@,
                    packet@.sequence,
                    packet@.timestamp,
                    planes@,
                    self@.width,
                    self@.height,
                ),
                Err(error) => planes_refusal(planes@, self@.width, self@.height) == Some(error@),
            },
    {
        proof {
            use_type_invariant(self);
        }
        nv12_to_frame(packet.sequence(), packet.timestamp(), self.width, self.height, planes)
    }
}

/// The planes that an encoder is given have the size that it was told.
pub proof fn law_samples_have_the_announced_size(frame: FrameView)
    requires
        convertible(frame.layout),
    ensures
        sample_bytes(frame.layout.width(), frame.layout.height()) matches Some(bytes)
            ==> nv12_planes(frame).len() == bytes,
{
    let width = frame.layout.width() as int;
    let height = frame.layout.height() as int;
    let rows = height / 2;
    assert(width * height == 2 * (width * rows)) by (nonlinear_arith)
        requires
            height == 2 * rows,
    ;
    assert(width * height >= 0 && width * rows >= 0) by (nonlinear_arith)
        requires
            width >= 0,
            height >= 0,
            rows >= 0,
    ;
}

/// Encoders and decoders are made for sides that are even and not zero, and for rates that are not
/// zero.
pub proof fn law_even_sides_are_coded(
    width: u32,
    height: u32,
    bitrate: u32,
    frames_per_second: u32,
)
    ensures
        even_size(width, height) <==> width > 0 && height > 0 && width % 2 == 0 && height % 2 == 0,
        encoder_refusal(width, height, bitrate, frames_per_second) is None <==> width > 0 && height
            > 0 && width % 2 == 0 && height % 2 == 0 && bitrate > 0 && frames_per_second > 0,
        3 * (width * height) <= u32::MAX ==> sample_bytes(width, height) == Some(
            (3 * (width * height) / 2) as u32,
        ),
        3 * (width * height) > u32::MAX ==> sample_bytes(width, height) is None,
{
    assert(width * height * 3 == 3 * (width * height)) by (nonlinear_arith);
}

/// Times are told in tenths of a microsecond, and a frame is shown for its share of a second.
pub proof fn law_sample_times_are_tenths_of_a_microsecond(time: Duration, state: EncoderState)
    requires
        time.nanos <= 922_337_203_685_477_580_700,
        state.frames_per_second > 0,
    ensures
        sample_time(time) is Some,
        100 * sample_time(time)->Some_0 <= time.nanos < 100 * sample_time(time)->Some_0 + 100,
        state.frame_duration() * state.frames_per_second <= 10_000_000,
        10_000_000 < (state.frame_duration() + 1) * state.frames_per_second,
{
    let fps = state.frames_per_second as int;
    vstd::arithmetic::div_mod::lemma_fundamental_div_mod(10_000_000, fps);
    vstd::arithmetic::div_mod::lemma_mod_bound(10_000_000, fps);
    let share = state.frame_duration();
    assert(share * fps == fps * share && (share + 1) * fps == fps * share + fps)
        by (nonlinear_arith);
}

/// An encoder takes frames of its own size and of four bytes a pixel, whatever their number; what it
/// made of one is sent under its number and time, the first as a keyframe in any case and each other
/// where it holds one. Nothing made counts as skipped.
pub proof fn law_transform_pictures_are_sent(state: EncoderState, frame: FrameView, data: Seq<u8>)
    ensures
        frame.layout.width() != state.width || frame.layout.height() != state.height
            || frame.layout.pixel_format() != PixelFormat::Bgra32 ==> state.frame_refusal(
            frame,
        ) is Some,
        frame.layout.width() == state.width && frame.layout.height() == state.height
            && frame.layout.pixel_format() == PixelFormat::Bgra32 && nv12_planes(frame).len()
            <= u32::MAX && sample_time(frame.timestamp) is Some ==> state.frame_refusal(
            frame,
        ) is None,
        ({
            let outcome = state.outcome(frame, data);
            &&& data.len() == 0 ==> outcome is Ok && outcome->Ok_0 is Skipped
            &&& data.len() > 0 && (state.first_output || nal_units(data) is Ok) ==> outcome is Ok
                && outcome->Ok_0 is Packet
            &&& data.len() > 0 && !state.first_output && nal_units(data) is Err ==> outcome is Err
            &&& outcome is Ok && outcome->Ok_0 is Packet ==> {
                let packet = outcome->Ok_0->Packet_0;
                &&& packet.codec == VideoCodec::H264
                &&& packet.sequence == frame.sequence
                &&& packet.timestamp == frame.timestamp
                &&& packet.source_layout == frame.layout
                &&& packet.data == data
                &&& packet.keyframe <==> state.first_output || holds_keyframe(nal_units(data)->Ok_0)
            }
        }),
{
}

/// A decoder takes packets of H.264 of its own size that can be split into units, and refuses others.
pub proof fn law_decoder_takes_its_own_size(state: DecoderState, packet: PacketView)
    ensures
        state.packet_refusal(packet) is None ==> {
            &&& packet.codec == VideoCodec::H264
            &&& packet.source_layout.width() == state.width
            &&& packet.source_layout.height() == state.height
            &&& nal_units(packet.data) is Ok
        },
        packet.codec == VideoCodec::H264 && packet.source_layout.width() == state.width
            && packet.source_layout.height() == state.height && nal_units(packet.data) is Ok
            && annex_b(nal_units(packet.data)->Ok_0).len() <= u32::MAX && sample_time(
            packet.timestamp,
        ) is Some ==> state.packet_refusal(packet) is None,
{
}

/// The controls of an encoder with little delay: a constant bitrate, the mean and the highest the one
/// asked for, a buffer of one second, no frames out of order, and a keyframe every five seconds.
pub proof fn law_controls_keep_the_delay_low(bitrate: u32, frames_per_second: u32)
    requires
        frames_per_second <= 800_000_000,
    ensures
        ({
            let controls = low_latency_controls(bitrate, frames_per_second);
            &&& controls.len() == 11
            &&& controls[0] == (CodecControl { setting: CodecSetting::ConstantBitrate, value: 1 })
            &&& controls[1] == (CodecControl { setting: CodecSetting::MeanBitrate, value: bitrate })
            &&& controls[2] == (CodecControl { setting: CodecSetting::MaxBitrate, value: bitrate })
            &&& controls[3].setting == CodecSetting::BufferSize
            &&& bitrate <= 8 * controls[3].value < bitrate + 8
            &&& controls[4] == (CodecControl { setting: CodecSetting::LowLatency, value: 1 })
            &&& controls[5] == (CodecControl { setting: CodecSetting::RealTime, value: 1 })
            &&& controls[6] == (CodecControl { setting: CodecSetting::AllowFrameDrops, value: 1 })
            &&& controls[7] == (CodecControl { setting: CodecSetting::BFrames, value: 0 })
            &&& controls[8] == (CodecControl { setting: CodecSetting::DisplayRemoting, value: 1 })
            &&& controls[9] == (CodecControl { setting: CodecSetting::MaximumQp, value: 51 })
            &&& controls[10].setting == CodecSetting::KeyframeDistance
            &&& controls[10].value == 5 * frames_per_second
        }),
{
}

/// Twice as many bytes as the frame has pixels are set aside, or as many as were asked for.
pub proof fn law_room_for_two_bytes_a_pixel(state: EncoderState, asked: u32)
    ensures
        state.output_bytes(asked) >= asked,
        2 * (state.width * state.height) <= u32::MAX ==> state.output_bytes(asked) >= 2 * (
        state.width * state.height) && (state.output_bytes(asked) == asked || state.output_bytes(
            asked,
        ) == 2 * (state.width * state.height)),
        2 * (state.width * state.height) > u32::MAX ==> state.output_bytes(asked) == u32::MAX,
        output_patience() == 2_000_000_000,
{
}

/// Only the first picture that is sent counts as the first.
pub proof fn law_first_picture_is_first_once(state: EncoderState, sent: bool)
    ensures
        !state.after(true).first_output,
        state.after(false) == state,
        state.after(sent).width == state.width,
        state.after(sent).height == state.height,
        state.after(sent).frames_per_second == state.frames_per_second,
{
}

/// Output is read exactly when there is some, waiting fails exactly when the transform does, and only
/// where nothing happened is there a pause before the next question.
pub proof fn law_output_is_read_when_there_is_some(event: TransformEvent)
    ensures
        step_after(event) is ReadOutput <==> event is HaveOutput,
        step_after(event) is Fail <==> event is Failed,
        step_after(event) is Sleep <==> event is Nothing,
{
}

/// An outcome that is expected is the one that comes: a packet with the same data, number, time and
/// kind, for a frame of the same size, or the same failure. One outcome stands for one expectation.
pub proof fn law_expected_outcome_comes(
    result: Result<EncodeOutcome, DcError>,
    expected: Result<OutcomeView, DcErrorView>,
)
    requires
        same_outcome(result, expected),
    ensures
        result is Ok <==> expected is Ok,
        result matches Err(error) ==> expected == Err::<OutcomeView, DcErrorView>(error@),
        result matches Ok(EncodeOutcome::Skipped) ==> expected == Ok::<OutcomeView, DcErrorView>(
            OutcomeView::Skipped,
        ),
        result matches Ok(EncodeOutcome::Packet(packet)) ==> (expected matches Ok(
            OutcomeView::Packet(view),
        ) && {
            &&& packet@.data == view.data
            &&& packet@.sequence == view.sequence
            &&& packet@.timestamp == view.timestamp
            &&& packet@.keyframe == view.keyframe
            &&& packet@.codec == view.codec
            &&& packet@.source_layout.width() == view.source_layout.width()
            &&& packet@.source_layout.height() == view.source_layout.height()
            &&& packet@.source_layout.stride() == 4 * packet@.source_layout.width()
            &&& packet@.source_layout.pixel_format() == PixelFormat::Bgra32
        }),
{
}

} // verus!
