//! H.264 through a native libx264: what the encoder is given, and what becomes of its output. The
//! encoder itself is driven by the caller.
use crate::error::{DcError, DcErrorView};
use crate::media::frame::{FrameView, PixelFormat, VideoFrame};
use crate::media::h264::{gives, EncoderCapabilities};
use crate::media::nal::{contents, holds_keyframe, nal_units, split_h264_nal_units, unit_type, IDR_SLICE};
use crate::media::packet::{
    EncodeOutcome, EncodedVideoPacket, OutcomeView, PacketView, VideoCodec,
};
use vstd::prelude::*;

verus! {

/// The smallest budget for a slice.
pub const MIN_SLICE_LEN: u32 = 256;

/// Why an encoder is not opened, if it is not.
pub open spec fn encoder_refusal(
    width: u32,
    height: u32,
    target_bitrate: u32,
    frames_per_second: u32,
    max_slice_len: u32,
) -> Option<DcErrorView> {
    if width == 0 || height == 0 || width % 2 != 0 || height % 2 != 0 {
        Some(DcErrorView::InvalidInput("x264 dimensions must be non-zero and even"@))
    } else if target_bitrate == 0 || frames_per_second == 0 || max_slice_len < MIN_SLICE_LEN {
        Some(
            DcErrorView::InvalidInput("x264 bitrate, frame rate and slice budget must be valid"@),
        )
    } else {
        None
    }
}

/// A quotient, rounded up.
pub open spec fn rounded_up(value: int, divisor: int) -> int {
    (value + divisor - 1) / divisor
}

/// The rate in thousands of bits a second, and the buffer of half a second.
pub open spec fn kilobit_limits(target_bitrate: u32) -> (int, int) {
    let rate = if target_bitrate == 0 {
        1
    } else {
        rounded_up(target_bitrate as int, 1_000)
    };
    (rate, rounded_up(rate, 2))
}

/// The largest rate in kilobits per second and the size of the rate buffer in kilobits: half a
/// second at that rate.
pub fn rate_limits(target_bitrate: u32) -> (limits: (u32, u32))
    ensures
        limits.0 == if target_bitrate == 0 {
            1
        } else {
            rounded_up(target_bitrate as int, 1_000)
        },
        limits.1 == rounded_up(limits.0 as int, 2),
        (limits.0 as int, limits.1 as int) == kilobit_limits(target_bitrate),
{
    let kilobits: u32 = ((target_bitrate as u64 + 999) / 1_000) as u32;
    let rate: u32 = if kilobits < 1 {
        1
    } else {
        kilobits
    };
    (rate, ((rate as u64 + 1) / 2) as u32)
}

/// What the encoder is given beside the pixels of a frame.
#[derive(Clone, Copy, Debug, Eq, PartialEq, Structural)]
pub struct PictureParameters {
    pub stride: i32,
    pub timestamp: i64,
}

/// What is worth telling of an access unit: its first one, and each one with a slice over the
/// budget, which `over_budget` tells.
#[derive(Clone, Copy, Debug, Eq, PartialEq, Structural)]
pub struct SliceReport {
    pub units: usize,
    pub largest: usize,
    pub over_budget: bool,
}

/// The length of the longest unit.
pub open spec fn longest(units: Seq<Seq<u8>>) -> nat
    decreases units.len(),
{
    if units.len() == 0 {
        0
    } else {
        let before = longest(units.drop_last());
        if units.last().len() > before {
            units.last().len()
        } else {
            before
        }
    }
}

/// The state of an encoder around the native one.
pub struct X264Encoder {
    width: u32,
    height: u32,
    max_slice_len: u32,
    first_output: bool,
}

/// The contents of an [`X264Encoder`].
pub struct X264State {
    pub width: u32,
    pub height: u32,
    pub max_slice_len: u32,
    pub first_output: bool,
}

impl View for X264Encoder {
    type V = X264State;

    closed spec fn view(&self) -> X264State {
        X264State {
            width: self.width,
            height: self.height,
            max_slice_len: self.max_slice_len,
            first_output: self.first_output,
        }
    }
}

impl X264State {
    /// Why a frame is not encoded, if it is not.
    pub open spec fn frame_refusal(self, frame: FrameView) -> Option<DcErrorView> {
        if frame.layout.width() != self.width || frame.layout.height() != self.height {
            Some(DcErrorView::InvalidInput("x264 received a frame with changing dimensions"@))
        } else if frame.layout.pixel_format() != PixelFormat::Bgra32 {
            Some(DcErrorView::Unsupported("x264 currently accepts BGRA32 frames only"@))
        } else if frame.layout.stride() > i32::MAX {
            Some(DcErrorView::InvalidInput("x264 BGRA stride exceeds c_int"@))
        } else if frame.sequence > i64::MAX {
            Some(DcErrorView::InvalidInput("frame sequence exceeds x264 PTS"@))
        } else {
            None
        }
    }

    /// What the bytes that the native encoder put out for a frame mean.
    pub open spec fn outcome(self, frame: FrameView, told: bool, data: Seq<u8>) -> Result<
        OutcomeView,
        DcErrorView,
    > {
        if data.len() == 0 {
            Ok(OutcomeView::Skipped)
        } else {
            match nal_units(data) {
                Err(error) => Err(error),
                Ok(units) => Ok(
                    OutcomeView::Packet(
                        PacketView {
                            codec: VideoCodec::H264,
                            sequence: frame.sequence,
                            timestamp: frame.timestamp,
                            keyframe: told || holds_keyframe(units),
                            source_layout: frame.layout,
                            data,
                        },
                    ),
                ),
            }
        }
    }

    /// What is worth telling of an access unit.
    pub open spec fn report(self, data: Seq<u8>) -> Option<(nat, nat, bool)> {
        match nal_units(data) {
            Err(_) => None,
            Ok(units) => if data.len() > 0 && (self.first_output || longest(units)
                > self.max_slice_len) {
                Some((units.len(), longest(units), longest(units) > self.max_slice_len))
            } else {
                None
            },
        }
    }
}

impl X264Encoder {
    /// An encoder around a native one that is opened with the same arguments.
    pub fn new(
        width: u32,
        height: u32,
        target_bitrate: u32,
        frames_per_second: u32,
        max_slice_len: u32,
    ) -> (result: Result<X264Encoder, DcError>)
        ensures
            ({
                let refusal = encoder_refusal(
                    width,
                    height,
                    target_bitrate,
                    frames_per_second,
                    max_slice_len,
                );
                match result {
                    Ok(encoder) => refusal is None && encoder@ == (X264State {
                        width,
                        height,
                        max_slice_len,
                        first_output: true,
                    }),
                    Err(error) => refusal == Some(error@),
                }
            }),
    {
        if width == 0 || height == 0 || width % 2 != 0 || height % 2 != 0 {
            return Err(DcError::invalid_input("x264 dimensions must be non-zero and even"));
        }
        if target_bitrate == 0 || frames_per_second == 0 || max_slice_len < MIN_SLICE_LEN {
            return Err(
                DcError::invalid_input("x264 bitrate, frame rate and slice budget must be valid"),
            );
        }
        Ok(X264Encoder { width, height, max_slice_len, first_output: true })
    }

    pub fn codec(&self) -> (codec: VideoCodec)
        ensures
            codec == VideoCodec::H264,
    {
        VideoCodec::H264
    }

    pub fn capabilities(&self) -> (capabilities: EncoderCapabilities)
        ensures
            capabilities.backend@ == "x264"@,
            capabilities.codec == VideoCodec::H264,
            !capabilities.hardware_accelerated,
            !capabilities.zero_copy_input,
            capabilities.low_latency,
            capabilities.supports_force_keyframe,
    {
        EncoderCapabilities {
            backend: "x264",
            codec: VideoCodec::H264,
            hardware_accelerated: false,
            zero_copy_input: false,
            low_latency: true,
            supports_force_keyframe: true,
        }
    }

    /// What the native encoder is given beside the pixels of a frame.
    pub fn prepare(&self, frame: &VideoFrame) -> (result: Result<PictureParameters, DcError>)
        ensures
            match result {
                Ok(parameters) => {
                    &&& self@.frame_refusal(frame@) is None
                    &&& parameters.stride == frame@.layout.stride()
                    &&& parameters.timestamp == frame@.sequence
                },
                Err(error) => self@.frame_refusal(frame@) == Some(error@),
            },
    {
        let layout = frame.layout();
        let size = layout.size();
        if size.width() != self.width || size.height() != self.height {
            return Err(DcError::invalid_input("x264 received a frame with changing dimensions"));
        }
        if layout.pixel_format() != PixelFormat::Bgra32 {
            return Err(DcError::unsupported("x264 currently accepts BGRA32 frames only"));
        }
        let stride: usize = layout.stride();
        if stride as u64 > i32::MAX as u64 {
            return Err(DcError::invalid_input("x264 BGRA stride exceeds c_int"));
        }
        let sequence: u64 = frame.sequence();
        if sequence > i64::MAX as u64 {
            return Err(DcError::invalid_input("frame sequence exceeds x264 PTS"));
        }
        Ok(PictureParameters { stride: stride as i32, timestamp: sequence as i64 })
    }

    /// What the bytes mean that the native encoder put out for a frame, of which it told whether
    /// it is a keyframe, and what is worth telling of them.
    pub fn finish(&mut self, frame: &VideoFrame, told: bool, data: Vec<u8>) -> (result: (
        Result<EncodeOutcome, DcError>,
        Option<SliceReport>,
    ))
        ensures
            gives(result.0, old(self)@.outcome(frame@, told, data@)),
            match result.1 {
                Some(report) => old(self)@.report(data@) == Some(
                    (report.units as nat, report.largest as nat, report.over_budget),
                ),
                None => old(self)@.report(data@) is None,
            },
            final(self)@ == (X264State {
                first_output: old(self)@.first_output && (data@.len() == 0 || nal_units(
                    data@,
                ) is Err),
                ..old(self)@
            }),
    {
        if data.len() == 0 {
            return (Ok(EncodeOutcome::Skipped), None);
        }
        let mut keyframe = told;
        let mut largest: usize = 0;
        let count: usize;
        {
            let units = match split_h264_nal_units(data.as_slice()) {
                Ok(units) => units,
                Err(error) => return (Err(error), None),
            };
            let ghost all = contents(units@);
            count = units.len();
            let mut index: usize = 0;
            assert(all.take(0) =~= Seq::empty());
            while index < units.len()
                invariant
                    index <= units@.len(),
                    all == contents(units@),
                    largest == longest(all.take(index as int)),
                    keyframe == (told || holds_keyframe(all.take(index as int))),
                decreases units@.len() - index,
            {
                let unit = units[index];
                proof {
                    let done = all.take(index as int);
                    let next = all.take(index + 1);
                    assert(next.drop_last() =~= done);
                    assert(next.last() == unit@);
                    if holds_keyframe(done) {
                        let i = choose|i: int|
                            0 <= i < done.len() && (#[trigger] done[i]).len() > 0 && unit_type(
                                done[i],
                            ) == IDR_SLICE;
                        assert(next[i] == done[i]);
                    }
                    if unit@.len() > 0 && unit_type(unit@) == IDR_SLICE {
                        assert(unit_type(next[index as int]) == IDR_SLICE);
                    }
                    if holds_keyframe(next) && !(unit@.len() > 0 && unit_type(unit@)
                        == IDR_SLICE) {
                        let i = choose|i: int|
                            0 <= i < next.len() && (#[trigger] next[i]).len() > 0 && unit_type(
                                next[i],
                            ) == IDR_SLICE;
                        assert(done[i] == next[i]);
                    }
                }
                if unit.len() > largest {
                    largest = unit.len();
                }
                if unit.len() > 0 && unit[0] % 32 == IDR_SLICE {
                    keyframe = true;
                }
                index = index + 1;
            }
            assert(all.take(index as int) =~= all);
        }
        let over_budget = largest as u64 > self.max_slice_len as u64;
        let report = if self.first_output || over_budget {
            Some(SliceReport { units: count, largest, over_budget })
        } else {
            None
        };
        self.first_output = false;
        let packet = EncodedVideoPacket::new(
            VideoCodec::H264,
            frame.sequence(),
            frame.timestamp(),
            keyframe,
            frame.layout(),
            data,
        );
        match packet {
            Ok(packet) => (Ok(EncodeOutcome::Packet(packet)), report),
            Err(error) => (Err(error), report),
        }
    }
}

/// An encoder is made for sides that are even and not zero, rates that are not zero and slices of 256
/// bytes at least.
pub proof fn law_even_sides_are_encoded(
    width: u32,
    height: u32,
    target_bitrate: u32,
    frames_per_second: u32,
    max_slice_len: u32,
)
    ensures
        encoder_refusal(width, height, target_bitrate, frames_per_second, max_slice_len) is None
            <==> width > 0 && height > 0 && width % 2 == 0 && height % 2 == 0 && target_bitrate > 0
            && frames_per_second > 0 && max_slice_len >= 256,
        ({
            let (rate, buffer) = kilobit_limits(target_bitrate);
            &&& target_bitrate > 0 ==> target_bitrate <= 1_000 * rate < target_bitrate + 1_000
            &&& target_bitrate == 0 ==> rate == 1
            &&& rate <= 2 * buffer < rate + 2
        }),
{
}

/// Frames of the encoder's own size and of four bytes a pixel are taken; what it made of one is sent
/// under its number and time, as a keyframe where the encoder said so or it holds one. Nothing made
/// counts as skipped, and what cannot be split is refused.
pub proof fn law_x264_pictures_are_sent(
    state: X264State,
    frame: FrameView,
    told: bool,
    data: Seq<u8>,
)
    ensures
        state.frame_refusal(frame) is None <==> {
            &&& frame.layout.width() == state.width
            &&& frame.layout.height() == state.height
            &&& frame.layout.pixel_format() == PixelFormat::Bgra32
            &&& frame.layout.stride() <= 0x7fff_ffff
            &&& frame.sequence <= 0x7fff_ffff_ffff_ffff
        },
        ({
            let outcome = state.outcome(frame, told, data);
            &&& data.len() == 0 ==> outcome is Ok && outcome->Ok_0 is Skipped
            &&& data.len() > 0 && nal_units(data) is Err ==> outcome is Err
            &&& data.len() > 0 && nal_units(data) is Ok ==> {
                &&& outcome is Ok
                &&& outcome->Ok_0 matches OutcomeView::Packet(packet) && {
                    &&& packet.codec == VideoCodec::H264
                    &&& packet.sequence == frame.sequence
                    &&& packet.timestamp == frame.timestamp
                    &&& packet.source_layout == frame.layout
                    &&& packet.data == data
                    &&& packet.keyframe <==> told || holds_keyframe(nal_units(data)->Ok_0)
                }
            }
        }),
{
}

proof fn lemma_longest(units: Seq<Seq<u8>>)
    ensures
        forall|i: int| 0 <= i < units.len() ==> (#[trigger] units[i]).len() <= longest(units),
        units.len() > 0 ==> exists|i: int|
            0 <= i < units.len() && (#[trigger] units[i]).len() == longest(units),
        units.len() == 0 ==> longest(units) == 0,
    decreases units.len(),
{
    if units.len() > 0 {
        let before = units.drop_last();
        lemma_longest(before);
        assert forall|i: int| 0 <= i < units.len() implies (#[trigger] units[i]).len() <= longest(
            units,
        ) by {
            if i < before.len() {
                assert(before[i] == units[i]);
            }
        }
        if units.last().len() > longest(before) || before.len() == 0 {
            assert(units[units.len() - 1].len() == longest(units));
        } else {
            let i = choose|i: int|
                0 <= i < before.len() && (#[trigger] before[i]).len() == longest(before);
            assert(units[i].len() == longest(units));
        }
    }
}

/// The first picture is reported on, and each other that has a unit above the limit: how many units
/// it has, how long the longest is, and whether that is above the limit.
pub proof fn law_long_slices_are_reported(state: X264State, data: Seq<u8>)
    requires
        data.len() > 0,
        nal_units(data) is Ok,
    ensures
        ({
            let units = nal_units(data)->Ok_0;
            let over = exists|i: int|
                0 <= i < units.len() && (#[trigger] units[i]).len() > state.max_slice_len;
            let report = state.report(data);
            &&& report is Some <==> state.first_output || over
            &&& report is Some ==> report->Some_0.0 == units.len() && report->Some_0.2 == over
            &&& report is Some ==> forall|i: int|
                0 <= i < units.len() ==> (#[trigger] units[i]).len() <= report->Some_0.1
            &&& report is Some && units.len() > 0 ==> exists|i: int|
                0 <= i < units.len() && (#[trigger] units[i]).len() == report->Some_0.1
        }),
{
    lemma_longest(nal_units(data)->Ok_0);
}

} // verus!
