//! The H.264 codec of OpenH264.
use crate::error::{DcError, DcErrorView};
use crate::media::frame::{
    buffer_length_failure, layout_failure, no_metadata, row_bytes, FrameLayout, FrameSize,
    FrameView, PixelFormat, VideoFrame,
};
use crate::media::output::lemma_row_in_buffer;
use crate::media::packet::{
    EncodeOutcome, EncodedVideoPacket, OutcomeView, PacketView, VideoCodec,
};
use crate::media::pipeline::{skipped_error, VideoDecoder, VideoEncoder};
use crate::text::{joined, owned};
use crate::time::Duration;
use openh264::decoder::Decoder;
use openh264::encoder::{
    BitRate, Complexity, Encoder, EncoderConfig, FrameRate, FrameType, QpRange as EncoderQpRange,
    RateControlMode, UsageType,
};
use openh264::formats::{BgraSliceU8, RgbSliceU8, YUVBuffer, YUVSource};
use openh264::{OpenH264API, Timestamp};
use vstd::prelude::*;

verus! {

/// The encoder of `openh264`.
#[verifier::external_type_specification]
#[verifier::external_body]
pub struct ExEncoder(Encoder);

/// The decoder of `openh264`.
#[verifier::external_type_specification]
#[verifier::external_body]
pub struct ExDecoder(Decoder);

/// What `openh264` takes the contents of a picture for.
#[verifier::external_type_specification]
pub struct ExUsageType(UsageType);

/// How `openh264` keeps to a bit rate.
#[verifier::external_type_specification]
pub struct ExRateControlMode(RateControlMode);

/// How much work `openh264` puts into a picture.
#[verifier::external_type_specification]
pub struct ExComplexity(Complexity);

/// What an encoder can do.
#[derive(Clone, Copy, Debug)]
pub struct EncoderCapabilities {
    pub backend: &'static str,
    pub codec: VideoCodec,
    pub hardware_accelerated: bool,
    pub zero_copy_input: bool,
    pub low_latency: bool,
    pub supports_force_keyframe: bool,
}

/// What a decoder can do.
#[derive(Clone, Copy, Debug)]
pub struct DecoderCapabilities {
    pub backend: &'static str,
    pub codec: VideoCodec,
    pub hardware_accelerated: bool,
    pub zero_copy_output: bool,
    pub low_latency: bool,
}

/// The range of quantization that an encoder may choose from: zero is the highest quality, 51 the
/// strongest compression.
#[derive(Clone, Copy, Debug, Eq, PartialEq, Structural)]
pub struct QpRange {
    min: u8,
    max: u8,
}

impl QpRange {
    #[verifier::type_invariant]
    spec fn inv(self) -> bool {
        self.valid()
    }

    /// The bounds are in order and the upper one exists.
    pub closed spec fn valid(self) -> bool {
        self.min <= self.max <= 51
    }

    pub closed spec fn lowest(self) -> u8 {
        self.min
    }

    pub closed spec fn highest(self) -> u8 {
        self.max
    }

    pub fn new(min: u8, max: u8) -> (range: QpRange)
        requires
            min <= max <= 51,
        ensures
            range.lowest() == min,
            range.highest() == max,
    {
        QpRange { min, max }
    }
}

/// What an encoder was asked for.
#[derive(Clone, Copy, Debug)]
pub struct EncoderSettings {
    pub target_bitrate: u32,
    pub frames_per_second: u16,
    pub qp_range: Option<QpRange>,
    pub max_slice_len: Option<u32>,
}

/// What kind of picture an encoder produced.
#[derive(Clone, Copy, Debug, Eq, PartialEq, Structural)]
pub enum PictureKind {
    Invalid,
    Idr,
    I,
    P,
    Skip,
    Mixed,
}

/// A decoded picture: its size and its pixels, three bytes each.
#[derive(Debug)]
pub struct DecodedPicture {
    pub width: usize,
    pub height: usize,
    pub rgb: Vec<u8>,
}

/// An encoder as it was opened, or the text of the failure.
pub open spec fn encoder_view(opened: Result<Encoder, String>) -> Result<Encoder, Seq<char>> {
    match opened {
        Ok(encoder) => Ok(encoder),
        Err(failure) => Err(failure@),
    }
}

/// What `openh264` may return when an encoder is opened with these settings: an encoder that has
/// them, or the text of a failure. Whether it succeeds depends on the machine.
pub uninterp spec fn screen_encoders(
    bitrate: u32,
    frames_per_second: u16,
    qp: Option<(u8, u8)>,
    max_slice_len: Option<u32>,
    usage: UsageType,
    control: RateControlMode,
    complexity: Complexity,
    skip_frames: bool,
    adaptive_quantization: bool,
    background_detection: bool,
) -> Set<Result<Encoder, Seq<char>>>;

/// Calls `Encoder::with_api_config` of `openh264` with the given settings. The contract names what
/// may come back for them.
#[verifier::external_body]
fn screen_encoder(
    settings: EncoderSettings,
    qp: Option<(u8, u8)>,
    usage: UsageType,
    control: RateControlMode,
    complexity: Complexity,
    skip_frames: bool,
    adaptive_quantization: bool,
    background_detection: bool,
) -> (result: Result<Encoder, String>)
    requires
        qp matches Some((min, max)) ==> min <= max <= 51,
    ensures
        screen_encoders(
            settings.target_bitrate,
            settings.frames_per_second,
            qp,
            settings.max_slice_len,
            usage,
            control,
            complexity,
            skip_frames,
            adaptive_quantization,
            background_detection,
        ).contains(encoder_view(result)),
{
    let mut config = EncoderConfig::new()
        .bitrate(BitRate::from_bps(settings.target_bitrate))
        .max_frame_rate(FrameRate::from_hz(settings.frames_per_second.into()))
        .usage_type(usage).rate_control_mode(control).complexity(complexity)
        .skip_frames(skip_frames).adaptive_quantization(adaptive_quantization)
        .background_detection(background_detection);
    if let Some((min, max)) = qp {
        config = config.qp(EncoderQpRange::new(min, max));
    }
    if let Some(length) = settings.max_slice_len {
        config = config.max_slice_len(length);
    }
    Encoder::with_api_config(OpenH264API::from_source(), config).map_err(|e| e.to_string())
}

/// What an encoder of `openh264` may become and return when it is given a picture of BGRA pixels at
/// a time in milliseconds. Which of it comes about depends on the processor.
pub uninterp spec fn bgra_encodings(
    encoder: Encoder,
    pixels: Seq<u8>,
    width: nat,
    height: nat,
    millis: nat,
) -> Set<(Encoder, Result<(PictureKind, Seq<u8>), Seq<char>>)>;

/// Calls `Encoder::encode_at` of `openh264` on what `YUVBuffer::from_bgra8_source` makes of the
/// pixels. The contract names what may become of this encoder and come back for these pixels at
/// this time; it does not say what that is.
#[verifier::external_body]
fn encode_bgra_at(
    encoder: &mut Encoder,
    pixels: &[u8],
    width: usize,
    height: usize,
    millis: u64,
) -> (picture: Result<(PictureKind, Vec<u8>), String>)
    requires
        pixels@.len() == 4 * (width * height),
        width % 2 == 0,
        height % 2 == 0,
        millis <= i64::MAX,
    ensures
        bgra_encodings(
            *old(encoder),
            pixels@,
            width as nat,
            height as nat,
            millis as nat,
        ).contains((*final(encoder), picture_view(picture))),
{
    let yuv = YUVBuffer::from_bgra8_source(BgraSliceU8::new(pixels, (width, height)));
    let time = Timestamp::from_millis(millis);
    let stream = encoder.encode_at(&yuv, time).map_err(|error| error.to_string())?;
    let kind = match stream.frame_type() {
        FrameType::Invalid => PictureKind::Invalid,
        FrameType::IDR => PictureKind::Idr,
        FrameType::I => PictureKind::I,
        FrameType::P => PictureKind::P,
        FrameType::Skip => PictureKind::Skip,
        FrameType::IPMixed => PictureKind::Mixed,
    };
    Ok((kind, stream.to_vec()))
}

/// What an encoder of `openh264` may become and return when it is given a picture of RGB pixels at
/// a time in milliseconds. Which of it comes about depends on the processor.
pub uninterp spec fn rgb_encodings(
    encoder: Encoder,
    pixels: Seq<u8>,
    width: nat,
    height: nat,
    millis: nat,
) -> Set<(Encoder, Result<(PictureKind, Seq<u8>), Seq<char>>)>;

/// Calls `Encoder::encode_at` of `openh264` on what `YUVBuffer::from_rgb8_source` makes of the
/// pixels. The contract names what may become of this encoder and come back for these pixels at
/// this time; it does not say what that is.
#[verifier::external_body]
fn encode_rgb_at(
    encoder: &mut Encoder,
    pixels: &[u8],
    width: usize,
    height: usize,
    millis: u64,
) -> (picture: Result<(PictureKind, Vec<u8>), String>)
    requires
        pixels@.len() == 3 * (width * height),
        width % 2 == 0,
        height % 2 == 0,
        millis <= i64::MAX,
    ensures
        rgb_encodings(
            *old(encoder),
            pixels@,
            width as nat,
            height as nat,
            millis as nat,
        ).contains((*final(encoder), picture_view(picture))),
{
    let yuv = YUVBuffer::from_rgb8_source(RgbSliceU8::new(pixels, (width, height)));
    let time = Timestamp::from_millis(millis);
    let stream = encoder.encode_at(&yuv, time).map_err(|error| error.to_string())?;
    let kind = match stream.frame_type() {
        FrameType::Invalid => PictureKind::Invalid,
        FrameType::IDR => PictureKind::Idr,
        FrameType::I => PictureKind::I,
        FrameType::P => PictureKind::P,
        FrameType::Skip => PictureKind::Skip,
        FrameType::IPMixed => PictureKind::Mixed,
    };
    Ok((kind, stream.to_vec()))
}

/// What an encoder of `openh264` may become when it is asked for a keyframe.
pub uninterp spec fn forced_encoders(encoder: Encoder) -> Set<Encoder>;

/// Calls `Encoder::force_intra_frame` of `openh264`, which makes the next picture a keyframe. The
/// contract names what may become of the encoder.
#[verifier::external_body]
fn force_intra_frame(encoder: &mut Encoder)
    ensures
        forced_encoders(*old(encoder)).contains(*final(encoder)),
{
    encoder.force_intra_frame();
}

/// Calls `Decoder::new` of `openh264`. Nothing is claimed of the decoder.
#[verifier::external_body]
fn open_decoder() -> (result: Result<Decoder, String>) {
    Decoder::new().map_err(|error| error.to_string())
}

/// What a decoder of `openh264` may become and return when it is given encoded data: the size and
/// the RGB bytes of a picture, no picture, or the text of a failure.
pub uninterp spec fn h264_decodings(decoder: Decoder, data: Seq<u8>) -> Set<
    (Decoder, Result<Option<(usize, usize, Seq<u8>)>, Seq<char>>),
>;

/// Calls `Decoder::decode` of `openh264`. The contract names what may become of this decoder and
/// come back for the data, and claims that a picture has three bytes for each of its pixels.
#[verifier::external_body]
fn decode_picture(decoder: &mut Decoder, data: &[u8]) -> (picture: Result<
    Option<DecodedPicture>,
    String,
>)
    ensures
        h264_decodings(*old(decoder), data@).contains((*final(decoder), decoded_view(picture))),
        picture matches Ok(Some(decoded)) ==> decoded.rgb@.len() == 3 * (decoded.width
            * decoded.height),
{
    match decoder.decode(data).map_err(|error| error.to_string())? {
        None => Ok(None),
        Some(decoded) => {
            let (width, height) = decoded.dimensions();
            let mut rgb = vec![0u8; decoded.rgb8_len()];
            decoded.write_rgb8(&mut rgb);
            Ok(Some(DecodedPicture { width, height, rgb }))
        },
    }
}

/// The rows of a frame without the padding behind them, one after the other.
pub open spec fn packed_rows(data: Seq<u8>, stride: int, row_bytes: int, count: nat) -> Seq<u8>
    decreases count,
{
    if count == 0 {
        Seq::empty()
    } else {
        let start = (count - 1) * stride;
        packed_rows(data, stride, row_bytes, (count - 1) as nat) + data.subrange(
            start,
            start + row_bytes,
        )
    }
}

/// The pixels of a frame without padding.
pub open spec fn packed_pixels(frame: FrameView) -> Seq<u8> {
    packed_rows(
        frame.data,
        frame.layout.stride() as int,
        row_bytes(frame.layout.width(), frame.layout.pixel_format()),
        frame.layout.height() as nat,
    )
}

proof fn lemma_packed_len(data: Seq<u8>, stride: int, row_bytes: int, count: nat)
    requires
        0 <= row_bytes <= stride,
        count * stride <= data.len(),
    ensures
        packed_rows(data, stride, row_bytes, count).len() == count * row_bytes,
    decreases count,
{
    if count > 0 {
        let before = (count - 1) as nat;
        assert(before * stride + stride == count * stride) by (nonlinear_arith)
            requires
                before + 1 == count,
        ;
        assert(before * row_bytes + row_bytes == count * row_bytes) by (nonlinear_arith)
            requires
                before + 1 == count,
        ;
        assert(before * stride >= 0) by (nonlinear_arith)
            requires
                stride >= 0,
        ;
        lemma_packed_len(data, stride, row_bytes, before);
    } else {
        assert(count * row_bytes == 0) by (nonlinear_arith)
            requires
                count == 0,
        ;
    }
}

/// Copies rows without the padding behind them.
pub(crate) fn pack_rows(data: &[u8], stride: usize, row_bytes: usize, count: u32) -> (packed: Vec<
    u8,
>)
    requires
        row_bytes <= stride,
        stride * count <= data@.len(),
    ensures
        packed@ == packed_rows(data@, stride as int, row_bytes as int, count as nat),
        packed@.len() == count * row_bytes,
{
    let available: usize = data.len();
    let mut packed: Vec<u8> = Vec::new();
    let mut index: u32 = 0;
    assert(packed@ =~= Seq::empty());
    while index < count
        invariant
            index <= count,
            row_bytes <= stride,
            available == data@.len(),
            stride * count <= available,
            packed@ == packed_rows(data@, stride as int, row_bytes as int, index as nat),
        decreases count - index,
    {
        proof {
            lemma_row_in_buffer(stride as int, index as int, count as int);
            assert(index * stride == stride * index) by (nonlinear_arith);
        }
        let start: usize = index as usize * stride;
        crate::bytes::put_slice(
            &mut packed,
            vstd::slice::slice_subrange(data, start, start + row_bytes),
        );
        index = index + 1;
    }
    proof {
        assert(count * stride == stride * count) by (nonlinear_arith);
        lemma_packed_len(data@, stride as int, row_bytes as int, count as nat);
    }
    packed
}

/// The pixels of a frame without padding.
pub fn tightly_pack(frame: &VideoFrame) -> (packed: Vec<u8>)
    ensures
        packed@ == packed_pixels(frame@),
        packed@.len() == frame@.layout.height() * row_bytes(
            frame@.layout.width(),
            frame@.layout.pixel_format(),
        ),
{
    let layout = frame.layout();
    let data = frame.data();
    let size = layout.size();
    let row: usize = match layout.pixel_format() {
        PixelFormat::Rgb24 => size.width() as usize * 3,
        _ => size.width() as usize * 4,
    };
    pack_rows(data, layout.stride(), row, size.height())
}

/// Why a frame is not handed to the encoder, if it is not. The encoder takes timestamps up to the
/// largest signed number of milliseconds.
pub open spec fn encode_refusal(frame: FrameView) -> Option<DcErrorView> {
    if frame.layout.width() % 2 != 0 || frame.layout.height() % 2 != 0 {
        Some(DcErrorView::InvalidInput("H.264 frame dimensions must be even"@))
    } else if frame.timestamp.nanos / 1_000_000 > i64::MAX {
        Some(DcErrorView::InvalidInput("frame timestamp exceeds u64 milliseconds"@))
    } else {
        None
    }
}

/// A picture as an encoder returned it, or the text of the failure.
pub open spec fn picture_view(picture: Result<(PictureKind, Vec<u8>), String>) -> Result<
    (PictureKind, Seq<u8>),
    Seq<char>,
> {
    match picture {
        Ok((kind, data)) => Ok((kind, data@)),
        Err(failure) => Err(failure@),
    }
}

/// What a picture means for the frame that was encoded.
pub open spec fn outcome_of_picture(
    frame: FrameView,
    picture: Result<(PictureKind, Seq<u8>), Seq<char>>,
) -> Result<OutcomeView, DcErrorView> {
    match picture {
        Err(failure) => Err(DcErrorView::Codec(failure)),
        Ok((kind, data)) => if kind is Skip || data.len() == 0 {
            Ok(OutcomeView::Skipped)
        } else {
            Ok(
                OutcomeView::Packet(
                    PacketView {
                        codec: VideoCodec::H264,
                        sequence: frame.sequence,
                        timestamp: frame.timestamp,
                        keyframe: kind is Idr || kind is I,
                        source_layout: frame.layout,
                        data,
                    },
                ),
            )
        },
    }
}

/// What an encoder may become and return when it is given a frame: the pixels without padding and
/// the time in milliseconds.
pub open spec fn possible_pictures(encoder: Encoder, frame: FrameView) -> Set<
    (Encoder, Result<(PictureKind, Seq<u8>), Seq<char>>),
> {
    let width = frame.layout.width() as nat;
    let height = frame.layout.height() as nat;
    let millis = (frame.timestamp.nanos / 1_000_000) as nat;
    if frame.layout.pixel_format() == PixelFormat::Rgb24 {
        rgb_encodings(encoder, packed_pixels(frame), width, height, millis)
    } else {
        bgra_encodings(encoder, packed_pixels(frame), width, height, millis)
    }
}

/// Whether a result is the given one.
pub open spec fn gives(
    result: Result<EncodeOutcome, DcError>,
    expected: Result<OutcomeView, DcErrorView>,
) -> bool {
    match result {
        Ok(outcome) => expected == Ok::<OutcomeView, DcErrorView>(outcome@),
        Err(error) => expected == Err::<OutcomeView, DcErrorView>(error@),
    }
}

/// The packet of an encoded picture.
pub fn packet_of_picture(frame: &VideoFrame, picture: Result<(PictureKind, Vec<u8>), String>) -> (
    result: Result<EncodeOutcome, DcError>)
    ensures
        gives(result, outcome_of_picture(frame@, picture_view(picture))),
{
    match picture {
        Err(failure) => Err(DcError::Codec(failure)),
        Ok((kind, data)) => {
            if kind == PictureKind::Skip || data.len() == 0 {
                return Ok(EncodeOutcome::Skipped);
            }
            let keyframe = kind == PictureKind::Idr || kind == PictureKind::I;
            let packet = EncodedVideoPacket::new(
                VideoCodec::H264,
                frame.sequence(),
                frame.timestamp(),
                keyframe,
                frame.layout(),
                data,
            )?;
            Ok(EncodeOutcome::Packet(packet))
        },
    }
}

/// Why settings are refused, if they are.
pub open spec fn settings_refusal(bitrate: u32, frames_per_second: u16) -> Option<DcErrorView> {
    if bitrate == 0 {
        Some(DcErrorView::InvalidInput("H.264 target bitrate must be non-zero"@))
    } else if frames_per_second == 0 {
        Some(DcErrorView::InvalidInput("H.264 frame rate must be finite and greater than zero"@))
    } else {
        None
    }
}

/// What `openh264` may return for the settings of an encoder. It encodes screen contents in real
/// time with little work, takes the bit rate for a budget of the network and may leave frames out
/// to keep it, and neither adapts the quantization nor looks for a background.
pub open spec fn encoders_for(settings: EncoderSettings) -> Set<Result<Encoder, Seq<char>>> {
    screen_encoders(
        settings.target_bitrate,
        settings.frames_per_second,
        match settings.qp_range {
            Some(range) => Some((range.lowest(), range.highest())),
            None => None,
        },
        settings.max_slice_len,
        UsageType::ScreenContentRealTime,
        RateControlMode::Bitrate,
        Complexity::Low,
        true,
        false,
        false,
    )
}

/// Whether a result is what `openh264` may return for the given settings: an encoder that has
/// them, or the failure to make one.
pub open spec fn made_with(
    result: Result<OpenH264Encoder, DcError>,
    settings: EncoderSettings,
) -> bool {
    match result {
        Ok(encoder) => {
            &&& encoder.asked_for() == settings
            &&& encoders_for(settings).contains(Ok(encoder.encodes_with()))
        },
        Err(error) => error@ matches DcErrorView::Codec(failure) && encoders_for(
            settings,
        ).contains(Err(failure)),
    }
}

/// Whether a range is the one for strong compression: from the given quantization, at most 51, to
/// 51.
pub open spec fn strong(range: QpRange, minimum_qp: u8) -> bool {
    &&& range.lowest() == (if minimum_qp < 51 {
        minimum_qp
    } else {
        51
    })
    &&& range.highest() == 51
}

/// The software encoder for screen contents.
pub struct OpenH264Encoder {
    encoder: Encoder,
    settings: EncoderSettings,
}

/// Whether slices of at most the given size cannot be asked for.
pub open spec fn too_small_slices(max_slice_len: u32) -> bool {
    max_slice_len < 256
}

impl OpenH264Encoder {
    pub closed spec fn asked_for(self) -> EncoderSettings {
        self.settings
    }

    /// The encoder of `openh264` that the pictures are handed to.
    pub closed spec fn encodes_with(self) -> Encoder {
        self.encoder
    }

    /// An encoder that chooses the quantization itself.
    pub fn new(target_bitrate: u32, frames_per_second: u16) -> (result: Result<
        OpenH264Encoder,
        DcError,
    >)
        ensures
            match settings_refusal(target_bitrate, frames_per_second) {
                Some(refusal) => result matches Err(error) && error@ == refusal,
                None => made_with(
                    result,
                    EncoderSettings {
                        target_bitrate,
                        frames_per_second,
                        qp_range: None,
                        max_slice_len: None,
                    },
                ),
            },
    {
        OpenH264Encoder::new_with_qp(target_bitrate, frames_per_second, None)
    }

    /// An encoder with an optional range of quantization. An average bit rate is no hard limit
    /// for single frames, so narrow links use this to make keyframes smaller.
    pub fn new_with_qp(target_bitrate: u32, frames_per_second: u16, qp_range: Option<QpRange>) -> (
        result: Result<OpenH264Encoder, DcError>)
        ensures
            match settings_refusal(target_bitrate, frames_per_second) {
                Some(refusal) => result matches Err(error) && error@ == refusal,
                None => made_with(
                    result,
                    EncoderSettings {
                        target_bitrate,
                        frames_per_second,
                        qp_range,
                        max_slice_len: None,
                    },
                ),
            },
    {
        OpenH264Encoder::with_settings(
            EncoderSettings { target_bitrate, frames_per_second, qp_range, max_slice_len: None },
        )
    }

    /// An encoder that compresses at least as strongly as asked for.
    pub fn new_low_quality(target_bitrate: u32, frames_per_second: u16, minimum_qp: u8) -> (result:
        Result<OpenH264Encoder, DcError>)
        ensures
            match settings_refusal(target_bitrate, frames_per_second) {
                Some(refusal) => result matches Err(error) && error@ == refusal,
                None => exists|range: QpRange| #[trigger]
                    strong(range, minimum_qp) && made_with(
                        result,
                        EncoderSettings {
                            target_bitrate,
                            frames_per_second,
                            qp_range: Some(range),
                            max_slice_len: None,
                        },
                    ),
            },
    {
        OpenH264Encoder::new_with_qp(
            target_bitrate,
            frames_per_second,
            Some(low_quality(minimum_qp)),
        )
    }

    /// The software fallback with a hard limit on the size of a slice. The encoder applies the
    /// limit itself, while a cap on datagrams can only reject what is already encoded.
    pub fn new_network(
        target_bitrate: u32,
        frames_per_second: u16,
        minimum_qp: u8,
        max_slice_len: u32,
    ) -> (result: Result<OpenH264Encoder, DcError>)
        ensures
            result is Ok ==> !too_small_slices(max_slice_len),
            too_small_slices(max_slice_len) ==> (result matches Err(error) && error@
                == DcErrorView::InvalidInput(
                "H.264 maximum slice length must be at least 256 bytes"@,
            )),
            !too_small_slices(max_slice_len) && settings_refusal(target_bitrate, frames_per_second)
                is None ==> exists|range: QpRange| #[trigger]
                strong(range, minimum_qp) && made_with(
                    result,
                    EncoderSettings {
                        target_bitrate,
                        frames_per_second,
                        qp_range: Some(range),
                        max_slice_len: Some(max_slice_len),
                    },
                ),
            if max_slice_len < 256 {
                result matches Err(error) && error@ == DcErrorView::InvalidInput(
                    "H.264 maximum slice length must be at least 256 bytes"@,
                )
            } else {
                match settings_refusal(target_bitrate, frames_per_second) {
                    Some(refusal) => result matches Err(error) && error@ == refusal,
                    None => exists|range: QpRange| #[trigger]
                        strong(range, minimum_qp) && made_with(
                            result,
                            EncoderSettings {
                                target_bitrate,
                                frames_per_second,
                                qp_range: Some(range),
                                max_slice_len: Some(max_slice_len),
                            },
                        ),
                }
            },
    {
        if max_slice_len < 256 {
            return Err(
                DcError::invalid_input("H.264 maximum slice length must be at least 256 bytes"),
            );
        }
        OpenH264Encoder::with_settings(
            EncoderSettings {
                target_bitrate,
                frames_per_second,
                qp_range: Some(low_quality(minimum_qp)),
                max_slice_len: Some(max_slice_len),
            },
        )
    }

    fn with_settings(settings: EncoderSettings) -> (result: Result<OpenH264Encoder, DcError>)
        ensures
            match settings_refusal(settings.target_bitrate, settings.frames_per_second) {
                Some(refusal) => result matches Err(error) && error@ == refusal,
                None => made_with(result, settings),
            },
    {
        if settings.target_bitrate == 0 {
            return Err(DcError::invalid_input("H.264 target bitrate must be non-zero"));
        }
        if settings.frames_per_second == 0 {
            return Err(
                DcError::invalid_input("H.264 frame rate must be finite and greater than zero"),
            );
        }
        let qp = match settings.qp_range {
            Some(range) => {
                proof {
                    use_type_invariant(&range);
                }
                Some((range.min, range.max))
            },
            None => None,
        };
        let opened = screen_encoder(
            settings,
            qp,
            UsageType::ScreenContentRealTime,
            RateControlMode::Bitrate,
            Complexity::Low,
            true,
            false,
            false,
        );
        match opened {
            Ok(encoder) => Ok(OpenH264Encoder { encoder, settings }),
            Err(failure) => Err(DcError::Codec(failure)),
        }
    }

    /// What the encoder was asked for.
    pub fn settings(&self) -> (settings: EncoderSettings)
        ensures
            settings == self.asked_for(),
    {
        self.settings
    }

    pub fn codec(&self) -> (codec: VideoCodec)
        ensures
            codec == VideoCodec::H264,
    {
        VideoCodec::H264
    }

    pub fn capabilities(&self) -> (capabilities: EncoderCapabilities)
        ensures
            capabilities.backend@ == "openh264"@,
            capabilities.codec == VideoCodec::H264,
            !capabilities.hardware_accelerated,
            !capabilities.zero_copy_input,
            capabilities.low_latency,
            !capabilities.supports_force_keyframe,
    {
        EncoderCapabilities {
            backend: "openh264",
            codec: VideoCodec::H264,
            hardware_accelerated: false,
            zero_copy_input: false,
            low_latency: true,
            supports_force_keyframe: false,
        }
    }

    /// Makes the next picture a keyframe.
    pub fn force_keyframe(&mut self) -> (result: Result<(), DcError>)
        ensures
            result is Ok,
            final(self).asked_for() == old(self).asked_for(),
            forced_encoders(old(self).encodes_with()).contains(final(self).encodes_with()),
    {
        force_intra_frame(&mut self.encoder);
        Ok(())
    }

    /// Encodes a frame. The frame decides whether it is refused; what becomes of it otherwise is
    /// what the picture means that the encoder returns for its pixels.
    pub fn encode(&mut self, frame: VideoFrame) -> (result: Result<EncodeOutcome, DcError>)
        ensures
            final(self).asked_for() == old(self).asked_for(),
            match encode_refusal(frame@) {
                Some(refusal) => {
                    &&& result matches Err(error)
                    &&& error@ == refusal
                    &&& final(self).encodes_with() == old(self).encodes_with()
                },
                None => exists|picture: Result<(PictureKind, Seq<u8>), Seq<char>>|
                    possible_pictures(old(self).encodes_with(), frame@).contains(
                        (final(self).encodes_with(), picture),
                    ) && gives(
                        result,
                        #[trigger] outcome_of_picture(frame@, picture),
                    ),
            },
    {
        let layout = frame.layout();
        let size = layout.size();
        if size.width() % 2 != 0 || size.height() % 2 != 0 {
            return Err(DcError::invalid_input("H.264 frame dimensions must be even"));
        }
        let width: usize = size.width() as usize;
        let height: usize = size.height() as usize;
        let packed = tightly_pack(&frame);
        let millis: u128 = frame.timestamp().as_millis();
        if millis > 0x7fff_ffff_ffff_ffff {
            return Err(DcError::invalid_input("frame timestamp exceeds u64 milliseconds"));
        }
        let millis: u64 = millis as u64;
        let picture = match layout.pixel_format() {
            PixelFormat::Rgb24 => {
                assert(height * (3 * width) == 3 * (width * height)) by (nonlinear_arith);
                encode_rgb_at(&mut self.encoder, packed.as_slice(), width, height, millis)
            },
            _ => {
                assert(height * (4 * width) == 4 * (width * height)) by (nonlinear_arith);
                encode_bgra_at(&mut self.encoder, packed.as_slice(), width, height, millis)
            },
        };
        let ghost view = picture_view(picture);
        let result = packet_of_picture(&frame, picture);
        assert(gives(result, outcome_of_picture(frame@, view)));
        result
    }
}

fn low_quality(minimum_qp: u8) -> (range: QpRange)
    ensures
        strong(range, minimum_qp),
{
    let lowest: u8 = if minimum_qp < 51 {
        minimum_qp
    } else {
        51
    };
    QpRange::new(lowest, 51)
}

impl VideoEncoder for OpenH264Encoder {
    open spec fn declared_codec(&self) -> VideoCodec {
        VideoCodec::H264
    }

    open spec fn encodes(
        &self,
        after: &Self,
        frame: VideoFrame,
        result: Result<EncodedVideoPacket, DcError>,
    ) -> bool {
        match encode_refusal(frame@) {
            Some(refusal) => {
                &&& result matches Err(error)
                &&& error@ == refusal
                &&& after.encodes_with() == self.encodes_with()
            },
            None => exists|picture: Result<(PictureKind, Seq<u8>), Seq<char>>|
                possible_pictures(self.encodes_with(), frame@).contains(
                    (after.encodes_with(), picture),
                ) && match #[trigger] outcome_of_picture(frame@, picture) {
                    Ok(OutcomeView::Packet(view)) => result matches Ok(packet) && packet@ == view,
                    Ok(OutcomeView::Skipped) => result matches Err(error) && error@
                        == skipped_error(),
                    Err(failure) => result matches Err(error) && error@ == failure,
                },
        }
    }

    fn codec(&self) -> VideoCodec {
        VideoCodec::H264
    }

    fn encode(&mut self, frame: VideoFrame) -> Result<EncodedVideoPacket, DcError> {
        match OpenH264Encoder::encode(self, frame) {
            Ok(EncodeOutcome::Packet(packet)) => Ok(packet),
            Ok(EncodeOutcome::Skipped) => Err(DcError::Timeout(owned("encoder skipped the frame"))),
            Err(error) => Err(error),
        }
    }
}

/// A picture as a decoder returned it: its width, its height and its bytes.
pub open spec fn decoded_view(picture: Result<Option<DecodedPicture>, String>) -> Result<
    Option<(usize, usize, Seq<u8>)>,
    Seq<char>,
> {
    match picture {
        Err(failure) => Err(failure@),
        Ok(None) => Ok(None),
        Ok(Some(decoded)) => Ok(Some((decoded.width, decoded.height, decoded.rgb@))),
    }
}

/// Why a decoded picture gives no frame, if it gives none.
pub open spec fn picture_refusal(
    picture: Result<Option<(usize, usize, Seq<u8>)>, Seq<char>>,
) -> Option<DcErrorView> {
    match picture {
        Err(failure) => Some(DcErrorView::Codec(failure)),
        Ok(None) => Some(DcErrorView::Codec("decoder produced no frame"@)),
        Ok(Some((width, height, rgb))) => if width > u32::MAX {
            Some(DcErrorView::Codec("decoded width exceeds u32"@))
        } else if height > u32::MAX {
            Some(DcErrorView::Codec("decoded height exceeds u32"@))
        } else if width == 0 || height == 0 {
            Some(DcErrorView::InvalidInput("frame width and height must be non-zero"@))
        } else {
            let stride = row_bytes(width as u32, PixelFormat::Rgb24);
            match layout_failure(width as u32, height as u32, PixelFormat::Rgb24, stride) {
                Some(failure) => Some(failure),
                None => if rgb.len() != stride * height {
                    Some(buffer_length_failure(rgb.len(), (stride * height) as nat))
                } else {
                    None
                },
            }
        },
    }
}

/// Whether a frame shows a decoded picture.
pub open spec fn shows(
    frame: FrameView,
    sequence: u64,
    timestamp: Duration,
    picture: Result<Option<(usize, usize, Seq<u8>)>, Seq<char>>,
) -> bool {
    &&& frame.sequence == sequence
    &&& frame.timestamp == timestamp
    &&& frame.metadata == no_metadata()
    &&& frame.layout.pixel_format() == PixelFormat::Rgb24
    &&& picture matches Ok(Some((width, height, rgb))) && {
        &&& frame.layout.width() == width
        &&& frame.layout.height() == height
        &&& frame.layout.stride() == 3 * width
        &&& frame.data == rgb
    }
}

/// Whether a result is the frame of a decoded picture.
pub open spec fn frame_of(
    result: Result<VideoFrame, DcError>,
    sequence: u64,
    timestamp: Duration,
    picture: Result<Option<(usize, usize, Seq<u8>)>, Seq<char>>,
) -> bool {
    match result {
        Ok(frame) => picture_refusal(picture) is None && shows(
            frame@,
            sequence,
            timestamp,
            picture,
        ),
        Err(error) => picture_refusal(picture) == Some(error@),
    }
}

/// The frame of a decoded picture.
pub fn frame_of_picture(
    sequence: u64,
    timestamp: Duration,
    picture: Result<Option<DecodedPicture>, String>,
) -> (result: Result<VideoFrame, DcError>)
    ensures
        frame_of(result, sequence, timestamp, decoded_view(picture)),
{
    match picture {
        Err(failure) => Err(DcError::Codec(failure)),
        Ok(None) => Err(DcError::codec("decoder produced no frame")),
        Ok(Some(decoded)) => {
            if decoded.width as u64 > 0xffff_ffff {
                return Err(DcError::codec("decoded width exceeds u32"));
            }
            if decoded.height as u64 > 0xffff_ffff {
                return Err(DcError::codec("decoded height exceeds u32"));
            }
            let size = FrameSize::new(decoded.width as u32, decoded.height as u32)?;
            let layout = FrameLayout::packed(size, PixelFormat::Rgb24)?;
            VideoFrame::new(sequence, timestamp, layout, decoded.rgb)
        },
    }
}

/// The failure for a packet of another codec.
pub open spec fn not_h264(codec: VideoCodec) -> DcErrorView {
    DcErrorView::InvalidInput("H.264 decoder received "@ + codec.label() + " data"@)
}

/// The software decoder.
pub struct OpenH264Decoder {
    decoder: Decoder,
}

/// A decoder as it was opened, or the text of the failure.
pub open spec fn opened_view(opened: Result<Decoder, String>) -> Result<Decoder, Seq<char>> {
    match opened {
        Ok(decoder) => Ok(decoder),
        Err(failure) => Err(failure@),
    }
}

/// Whether a result is what the attempt of `openh264` to open a decoder gives: the software
/// decoder around the one that was opened, or the text of the failure.
pub open spec fn opened_as(
    result: Result<OpenH264Decoder, DcError>,
    opened: Result<Decoder, Seq<char>>,
) -> bool {
    match opened {
        Ok(decoder) => result matches Ok(made) && made.decodes_with() == decoder,
        Err(failure) => result matches Err(error) && error@ == DcErrorView::Codec(failure),
    }
}

impl OpenH264Decoder {
    /// The decoder of `openh264` that the packets are handed to.
    pub closed spec fn decodes_with(self) -> Decoder {
        self.decoder
    }

    /// Opens a decoder. `openh264` decides whether that succeeds.
    pub fn new() -> (result: Result<OpenH264Decoder, DcError>)
        ensures
            exists|opened: Result<Decoder, Seq<char>>| #[trigger] opened_as(result, opened),
    {
        let opened = open_decoder();
        let ghost outcome = opened_view(opened);
        let result = OpenH264Decoder::from_opened(opened);
        assert(opened_as(result, outcome));
        result
    }

    /// What the attempt to open a decoder gives.
    pub fn from_opened(opened: Result<Decoder, String>) -> (result: Result<
        OpenH264Decoder,
        DcError,
    >)
        ensures
            opened_as(result, opened_view(opened)),
    {
        match opened {
            Ok(decoder) => Ok(OpenH264Decoder { decoder }),
            Err(failure) => Err(DcError::Codec(failure)),
        }
    }

    pub fn capabilities(&self) -> (capabilities: DecoderCapabilities)
        ensures
            capabilities.backend@ == "openh264"@,
            capabilities.codec == VideoCodec::H264,
            !capabilities.hardware_accelerated,
            !capabilities.zero_copy_output,
            capabilities.low_latency,
    {
        DecoderCapabilities {
            backend: "openh264",
            codec: VideoCodec::H264,
            hardware_accelerated: false,
            zero_copy_output: false,
            low_latency: true,
        }
    }
}

impl VideoDecoder for OpenH264Decoder {
    open spec fn declared_codec(&self) -> VideoCodec {
        VideoCodec::H264
    }

    open spec fn decodes(
        &self,
        after: &Self,
        packet: EncodedVideoPacket,
        result: Result<VideoFrame, DcError>,
    ) -> bool {
        if packet@.codec != VideoCodec::H264 {
            &&& result matches Err(error)
            &&& error@ == not_h264(packet@.codec)
            &&& after.decodes_with() == self.decodes_with()
        } else {
            exists|picture: Result<Option<(usize, usize, Seq<u8>)>, Seq<char>>|
                h264_decodings(self.decodes_with(), packet@.data).contains(
                    (after.decodes_with(), picture),
                ) && #[trigger] frame_of(
                    result,
                    packet@.sequence,
                    packet@.timestamp,
                    picture,
                )
        }
    }

    fn codec(&self) -> VideoCodec {
        VideoCodec::H264
    }

    fn decode(&mut self, packet: EncodedVideoPacket) -> Result<VideoFrame, DcError> {
        if packet.codec() != VideoCodec::H264 {
            let message = joined("H.264 decoder received ", packet.codec().name());
            return Err(DcError::InvalidInput(joined(message.as_str(), " data")));
        }
        let picture = decode_picture(&mut self.decoder, packet.data());
        let ghost view = decoded_view(picture);
        let result = frame_of_picture(packet.sequence(), packet.timestamp(), picture);
        assert(frame_of(result, packet@.sequence, packet@.timestamp, view));
        result
    }
}

proof fn lemma_packed_byte(
    data: Seq<u8>,
    stride: int,
    row_bytes: int,
    count: nat,
    row: int,
    i: int,
)
    requires
        0 <= i < row_bytes <= stride,
        count * stride <= data.len(),
        0 <= row < count,
    ensures
        0 <= row * row_bytes + i < packed_rows(data, stride, row_bytes, count).len(),
        packed_rows(data, stride, row_bytes, count)[row * row_bytes + i] == data[row * stride + i],
    decreases count,
{
    let before = (count - 1) as nat;
    assert(before * stride + stride == count * stride && before * row_bytes + row_bytes == count
        * row_bytes) by (nonlinear_arith)
        requires
            before + 1 == count,
    ;
    lemma_packed_len(data, stride, row_bytes, count);
    lemma_packed_len(data, stride, row_bytes, before);
    assert(0 <= row * row_bytes && row * row_bytes + row_bytes <= count * row_bytes)
        by (nonlinear_arith)
        requires
            0 <= row < count,
            0 < row_bytes,
    ;
    assert(0 <= before * stride) by (nonlinear_arith)
        requires
            0 <= before,
            0 < stride,
    ;
    if row < before {
        lemma_packed_byte(data, stride, row_bytes, before, row, i);
    }
}

/// An encoder gets the pixels of a frame row by row, without what fills up the rows.
pub proof fn law_packed_rows_keep_their_pixels(frame: FrameView, row: int, i: int)
    requires
        frame.facts(),
        0 <= row < frame.layout.height(),
        frame.layout.pixel_format() == PixelFormat::Bgra32 ==> 0 <= i < 4 * frame.layout.width(),
        frame.layout.pixel_format() == PixelFormat::Rgb24 ==> 0 <= i < 3 * frame.layout.width(),
    ensures
        frame.layout.pixel_format() == PixelFormat::Bgra32 ==> packed_pixels(frame)[row * (4
            * frame.layout.width()) + i] == frame.data[row * frame.layout.stride() + i],
        frame.layout.pixel_format() == PixelFormat::Rgb24 ==> packed_pixels(frame)[row * (3
            * frame.layout.width()) + i] == frame.data[row * frame.layout.stride() + i],
        frame.layout.pixel_format() == PixelFormat::Bgra32 ==> packed_pixels(frame).len()
            == frame.layout.height() * (4 * frame.layout.width()),
        frame.layout.pixel_format() == PixelFormat::Rgb24 ==> packed_pixels(frame).len()
            == frame.layout.height() * (3 * frame.layout.width()),
{
    let stride = frame.layout.stride() as int;
    let bytes = row_bytes(frame.layout.width(), frame.layout.pixel_format());
    let height = frame.layout.height() as nat;
    assert(height * stride == stride * height) by (nonlinear_arith);
    lemma_packed_byte(frame.data, stride, bytes, height, row, i);
    lemma_packed_len(frame.data, stride, bytes, height);
}

/// Frames are encoded where both sides are even. What the encoder made of a frame is sent under the
/// frame's number and time, as a keyframe where it is complete in itself; what it skipped, or left
/// empty, counts as skipped.
pub proof fn law_encoded_pictures_are_sent(
    frame: FrameView,
    kind: PictureKind,
    data: Seq<u8>,
    failure: Seq<char>,
    encoder: Encoder,
)
    requires
        frame.facts(),
        frame.timestamp.nanos / 1_000_000 <= i64::MAX,
    ensures
        encode_refusal(frame) is None <==> frame.layout.width() % 2 == 0 && frame.layout.height()
            % 2 == 0,
        outcome_of_picture(frame, Err(failure)) is Err,
        ({
            let outcome = outcome_of_picture(frame, Ok((kind, data)));
            &&& outcome is Ok
            &&& outcome->Ok_0 is Skipped <==> kind is Skip || data.len() == 0
            &&& outcome->Ok_0 matches OutcomeView::Packet(packet) ==> {
                &&& packet.codec == VideoCodec::H264
                &&& packet.sequence == frame.sequence
                &&& packet.timestamp == frame.timestamp
                &&& packet.keyframe <==> kind is Idr || kind is I
                &&& packet.source_layout == frame.layout
                &&& packet.data == data
            }
        }),
        frame.layout.pixel_format() == PixelFormat::Rgb24 ==> possible_pictures(encoder, frame)
            == rgb_encodings(
            encoder,
            packed_pixels(frame),
            frame.layout.width() as nat,
            frame.layout.height() as nat,
            (frame.timestamp.nanos / 1_000_000) as nat,
        ),
        frame.layout.pixel_format() == PixelFormat::Bgra32 ==> possible_pictures(encoder, frame)
            == bgra_encodings(
            encoder,
            packed_pixels(frame),
            frame.layout.width() as nat,
            frame.layout.height() as nat,
            (frame.timestamp.nanos / 1_000_000) as nat,
        ),
{
}

/// A decoded picture is shown as it is: three bytes a pixel without gaps, under the packet's number
/// and time. One without pixels, or with more or fewer bytes than its size takes, is refused.
pub proof fn law_decoded_pictures_are_shown(
    frame: FrameView,
    sequence: u64,
    timestamp: Duration,
    width: usize,
    height: usize,
    rgb: Seq<u8>,
    failure: Seq<char>,
)
    requires
        width <= u32::MAX,
        height <= u32::MAX,
        3 * width <= usize::MAX,
        3 * width * height <= usize::MAX,
    ensures
        picture_refusal(Err(failure)) is Some,
        picture_refusal(Ok(None)) is Some,
        picture_refusal(Ok(Some((width, height, rgb)))) is None <==> width > 0 && height > 0
            && rgb.len() == 3 * width * height,
        shows(frame, sequence, timestamp, Ok(Some((width, height, rgb)))) <==> {
            &&& frame.sequence == sequence
            &&& frame.timestamp == timestamp
            &&& frame.metadata == no_metadata()
            &&& frame.layout.pixel_format() == PixelFormat::Rgb24
            &&& frame.layout.width() == width
            &&& frame.layout.height() == height
            &&& frame.layout.stride() == 3 * width
            &&& frame.data == rgb
        },
{
}

/// Encoders are made for any rates that are not zero, for screens, at low complexity and with a
/// constant bitrate, with leave to skip frames; a low quality is told by the quantizers from its
/// minimum to the highest, 51.
pub proof fn law_encoders_are_made_for_screens(
    bitrate: u32,
    frames_per_second: u16,
    settings: EncoderSettings,
    range: QpRange,
    minimum_qp: u8,
)
    ensures
        settings_refusal(bitrate, frames_per_second) is None <==> bitrate > 0 && frames_per_second
            > 0,
        encoders_for(settings) == screen_encoders(
            settings.target_bitrate,
            settings.frames_per_second,
            match settings.qp_range {
                Some(qp) => Some((qp.lowest(), qp.highest())),
                None => None,
            },
            settings.max_slice_len,
            UsageType::ScreenContentRealTime,
            RateControlMode::Bitrate,
            Complexity::Low,
            true,
            false,
            false,
        ),
        strong(range, minimum_qp) ==> range.highest() == 51 && range.lowest() <= 51 && (minimum_qp
            <= 51 ==> range.lowest() == minimum_qp),
{
}

/// What a decoder made of a packet is shown under the packet's number and time, and a packet of
/// another codec never reaches it.
pub proof fn law_decoder_takes_only_h264(
    decoder: OpenH264Decoder,
    after: OpenH264Decoder,
    packet: EncodedVideoPacket,
    result: Result<VideoFrame, DcError>,
)
    requires
        decoder.decodes(&after, packet, result),
    ensures
        packet@.codec != VideoCodec::H264 ==> result is Err && after.decodes_with()
            == decoder.decodes_with(),
        packet@.codec == VideoCodec::H264 ==> exists|
            picture: Result<Option<(usize, usize, Seq<u8>)>, Seq<char>>,
        | #[trigger]
            h264_decodings(decoder.decodes_with(), packet@.data).contains(
                (after.decodes_with(), picture),
            ) && (result is Ok <==> picture_refusal(picture) is None) && (result is Ok ==> shows(
                result->Ok_0@,
                packet@.sequence,
                packet@.timestamp,
                picture,
            )),
{
    if packet@.codec == VideoCodec::H264 {
        let picture = choose|picture: Result<Option<(usize, usize, Seq<u8>)>, Seq<char>>|
            h264_decodings(decoder.decodes_with(), packet@.data).contains(
                (after.decodes_with(), picture),
            ) && #[trigger] frame_of(result, packet@.sequence, packet@.timestamp, picture);
        assert(h264_decodings(decoder.decodes_with(), packet@.data).contains(
            (after.decodes_with(), picture),
        ));
    }
}

/// Slices can be asked for from 256 bytes on.
pub proof fn law_slices_have_room(max_slice_len: u32, longer: u32)
    requires
        max_slice_len <= longer,
    ensures
        !too_small_slices(max_slice_len) <==> max_slice_len >= 256,
        !too_small_slices(max_slice_len) ==> !too_small_slices(longer),
{
}

/// An encoder is made with the settings that were asked for, or the failure of `openh264` comes; a
/// decoder is the one that was opened; and an outcome that is expected is the one that comes.
pub proof fn law_codecs_are_what_was_asked_for(
    made: Result<OpenH264Encoder, DcError>,
    settings: EncoderSettings,
    decoder: Result<OpenH264Decoder, DcError>,
    opened: Result<Decoder, Seq<char>>,
    result: Result<EncodeOutcome, DcError>,
    expected: Result<OutcomeView, DcErrorView>,
)
    requires
        made_with(made, settings),
        opened_as(decoder, opened),
        gives(result, expected),
    ensures
        made matches Ok(encoder) ==> encoder.asked_for() == settings && encoders_for(
            settings,
        ).contains(Ok(encoder.encodes_with())),
        made matches Err(error) ==> error@ is Codec && encoders_for(settings).contains(
            Err(error@->Codec_0),
        ),
        decoder matches Ok(made) ==> opened == Ok::<Decoder, Seq<char>>(made.decodes_with()),
        decoder matches Err(error) ==> (opened matches Err(failure) && error@ == DcErrorView::Codec(
            failure,
        )),
        expected == (match result {
            Ok(outcome) => Ok::<OutcomeView, DcErrorView>(outcome@),
            Err(error) => Err::<OutcomeView, DcErrorView>(error@),
        }),
{
}

} // verus!
