//! H.264 through VideoToolbox: the parameter sets that a session is opened with, and the samples
//! that it is given. The session itself is driven by the caller.
use crate::bytes::{be_bytes, put_slice, put_u32};
use crate::error::{DcError, DcErrorView};
use crate::media::frame::PixelFormat;
use crate::media::h264::DecoderCapabilities;
use crate::media::nal::{contents, nal_units, split_h264_nal_units, unit_type};
use crate::media::packet::{EncodedVideoPacket, VideoCodec};
use crate::time::Duration;
use crate::text::joined;
use crate::transport::fingerprint::{hex_string, hex_text};
use crate::ui::window::rounded;
use vstd::prelude::*;

verus! {

/// The type of a unit that holds a sequence parameter set.
pub const SEQUENCE_PARAMETERS: u8 = 7;

/// The type of a unit that holds a picture parameter set.
pub const PICTURE_PARAMETERS: u8 = 8;

/// The number of a pixel buffer with four bytes for each pixel.
pub const PIXEL_FORMAT_32_BGRA: u32 = 0x4247_5241;

/// The number of a pixel buffer with two planes and a reduced range.
pub const PIXEL_FORMAT_420_V: u32 = 0x3432_3076;

/// The number of a pixel buffer with two planes and the full range.
pub const PIXEL_FORMAT_420_F: u32 = 0x3432_3066;

/// The last unit of a type that is not empty, or what was known before.
pub open spec fn last_of_type(units: Seq<Seq<u8>>, wanted: u8, known: Seq<u8>) -> Seq<u8>
    decreases units.len(),
{
    if units.len() == 0 {
        known
    } else if units.last().len() > 0 && unit_type(units.last()) == wanted {
        units.last()
    } else {
        last_of_type(units.drop_last(), wanted, known)
    }
}

/// Whether some unit of a type differed from what was known when it came.
pub open spec fn type_changes(units: Seq<Seq<u8>>, wanted: u8, known: Seq<u8>) -> bool
    decreases units.len(),
{
    if units.len() == 0 {
        false
    } else {
        let before = units.drop_last();
        type_changes(before, wanted, known) || (units.last().len() > 0 && unit_type(units.last())
            == wanted && units.last() != last_of_type(before, wanted, known))
    }
}

/// The units of an access unit, each behind its length in four bytes.
pub open spec fn avcc(units: Seq<Seq<u8>>) -> Seq<u8>
    decreases units.len(),
{
    if units.len() == 0 {
        Seq::empty()
    } else {
        avcc(units.drop_last()) + be_bytes(units.last().len(), 4) + units.last()
    }
}

/// The length of the units, each with four more bytes.
pub open spec fn avcc_length(units: Seq<Seq<u8>>) -> nat
    decreases units.len(),
{
    if units.len() == 0 {
        0
    } else {
        avcc_length(units.drop_last()) + 4 + units.last().len()
    }
}

/// Why units give no sample, if they give none.
pub open spec fn sample_refusal(units: Seq<Seq<u8>>) -> Option<DcErrorView> {
    if avcc_length(units) > usize::MAX {
        Some(DcErrorView::InvalidInput("H.264 sample size overflowed"@))
    } else if exists|i: int| 0 <= i < units.len() && (#[trigger] units[i]).len() > u32::MAX {
        Some(DcErrorView::InvalidInput("H.264 NAL unit is too large"@))
    } else {
        None
    }
}

proof fn lemma_longer(units: Seq<Seq<u8>>, count: int)
    requires
        0 <= count <= units.len(),
    ensures
        avcc_length(units.take(count)) <= avcc_length(units),
    decreases units.len(),
{
    if count < units.len() {
        lemma_longer(units.drop_last(), count);
        assert(units.drop_last().take(count) =~= units.take(count));
    } else {
        assert(units.take(count) =~= units);
    }
}

/// A sample of units, each behind its length.
pub fn annex_b_to_avcc<'a>(units: &[&'a [u8]]) -> (result: Result<Vec<u8>, DcError>)
    ensures
        match result {
            Ok(sample) => sample_refusal(contents(units@)) is None && sample@ == avcc(
                contents(units@),
            ),
            Err(error) => sample_refusal(contents(units@)) == Some(error@),
        },
{
    let ghost all = contents(units@);
    let mut total: usize = 0;
    let mut index: usize = 0;
    assert(all.take(0) =~= Seq::empty());
    while index < units.len()
        invariant
            index <= units@.len(),
            all == contents(units@),
            total == avcc_length(all.take(index as int)),
        decreases units@.len() - index,
    {
        proof {
            assert(all.take(index + 1).drop_last() =~= all.take(index as int));
            assert(all.take(index + 1).last() == units@[index as int]@);
            lemma_longer(all, index + 1);
        }
        let unit = units[index];
        let length: usize = unit.len();
        let more: usize = match total.checked_add(length) {
            Some(more) => more,
            None => return Err(DcError::invalid_input("H.264 sample size overflowed")),
        };
        total =
        match more.checked_add(4) {
            Some(sum) => sum,
            None => return Err(DcError::invalid_input("H.264 sample size overflowed")),
        };
        index = index + 1;
    }
    assert(all.take(index as int) =~= all);
    let mut output: Vec<u8> = Vec::new();
    let mut index: usize = 0;
    while index < units.len()
        invariant
            index <= units@.len(),
            all == contents(units@),
            avcc_length(all) <= usize::MAX,
            output@ == avcc(all.take(index as int)),
            forall|i: int| 0 <= i < index ==> (#[trigger] all[i]).len() <= u32::MAX,
        decreases units@.len() - index,
    {
        assert(all.take(index + 1).drop_last() =~= all.take(index as int));
        let unit = units[index];
        assert(all[index as int] == unit@);
        let length: usize = unit.len();
        if length as u64 > u32::MAX as u64 {
            return Err(DcError::invalid_input("H.264 NAL unit is too large"));
        }
        put_u32(&mut output, length as u32);
        put_slice(&mut output, unit);
        index = index + 1;
    }
    assert(all.take(index as int) =~= all);
    Ok(output)
}

/// A time in units of its scale, to the nearest.
pub open spec fn scaled_time(time: Duration, timescale: u32) -> int {
    let exact = rounded(time.nanos * timescale, 1_000_000_000);
    if exact > i64::MAX {
        i64::MAX as int
    } else {
        exact
    }
}

/// The time of a sample, counted at a rate per second and rounded to the nearest number.
pub fn duration_to_timescale(time: Duration, timescale: u32) -> (value: i64)
    requires
        time.nanos <= crate::time::MAX_NANOS,
    ensures
        ({
            let exact = rounded(time.nanos * timescale, 1_000_000_000);
            value == if exact > i64::MAX {
                i64::MAX as int
            } else {
                exact
            }
        }),
        value == scaled_time(time, timescale),
{
    proof {
        assert(0 <= time.nanos * timescale <= 18_446_744_073_709_551_615_999_999_999 * 0xffff_ffff)
            by (nonlinear_arith)
            requires
                0 <= time.nanos <= 18_446_744_073_709_551_615_999_999_999,
                0 <= timescale <= 0xffff_ffff,
        ;
        assert(18_446_744_073_709_551_615_999_999_999 * 0xffff_ffff <= u128::MAX);
    }
    let parts: u128 = time.nanos * timescale as u128;
    let rest: u128 = parts % 1_000_000_000;
    let value: u128 = if 2 * rest >= 1_000_000_000 {
        parts / 1_000_000_000 + 1
    } else {
        parts / 1_000_000_000
    };
    if value > i64::MAX as u128 {
        i64::MAX
    } else {
        value as i64
    }
}

/// The format in which a decoded picture is shown.
pub open spec fn shown_format(format: u32) -> Option<PixelFormat> {
    if format == PIXEL_FORMAT_32_BGRA {
        Some(PixelFormat::Bgra32)
    } else if format == PIXEL_FORMAT_420_V || format == PIXEL_FORMAT_420_F {
        Some(PixelFormat::Rgb24)
    } else {
        None
    }
}

/// The format of the frames that a pixel buffer is copied into.
pub fn picture_format(format: u32) -> (result: Result<PixelFormat, DcError>)
    ensures
        match result {
            Ok(pixel_format) => (format == PIXEL_FORMAT_32_BGRA && pixel_format
                == PixelFormat::Bgra32) || ((format == PIXEL_FORMAT_420_V || format
                == PIXEL_FORMAT_420_F) && pixel_format == PixelFormat::Rgb24),
            Err(error) => format != PIXEL_FORMAT_32_BGRA && format != PIXEL_FORMAT_420_V && format
                != PIXEL_FORMAT_420_F && error@ == DcErrorView::Unsupported(
                "unsupported VideoToolbox pixel format 0x"@ + hex_text(be_bytes(format as nat, 4)),
            ),
        },
        match shown_format(format) {
            Some(shown) => result matches Ok(pixel_format) && pixel_format == shown,
            None => result is Err,
        },
{
    if format == PIXEL_FORMAT_32_BGRA {
        return Ok(PixelFormat::Bgra32);
    }
    if format == PIXEL_FORMAT_420_V || format == PIXEL_FORMAT_420_F {
        return Ok(PixelFormat::Rgb24);
    }
    let mut bytes: Vec<u8> = Vec::new();
    put_u32(&mut bytes, format);
    assert(bytes@ =~= be_bytes(format as nat, 4));
    let digits = hex_string(bytes.as_slice());
    Err(DcError::Unsupported(joined("unsupported VideoToolbox pixel format 0x", digits.as_str())))
}

/// What has to be done with the session before a packet is decoded.
#[derive(Clone, Copy, Debug, Eq, PartialEq, Structural)]
pub enum FormatAction {
    /// Nothing.
    Keep,
    /// Close the session and open one for the parameter sets.
    Rebuild,
}

/// The parameter sets of a stream, and whether a format and a session exist for them.
pub struct VideoToolboxH264Decoder {
    sps: Vec<u8>,
    pps: Vec<u8>,
    described: bool,
    opened: bool,
}

/// The contents of a [`VideoToolboxH264Decoder`].
pub struct ToolboxState {
    pub sps: Seq<u8>,
    pub pps: Seq<u8>,
    pub described: bool,
    pub opened: bool,
}

impl View for VideoToolboxH264Decoder {
    type V = ToolboxState;

    closed spec fn view(&self) -> ToolboxState {
        ToolboxState {
            sps: self.sps@,
            pps: self.pps@,
            described: self.described,
            opened: self.opened,
        }
    }
}

impl ToolboxState {
    /// The decoder after it was rebuilt.
    pub open spec fn rebuilt(self, described: bool, opened: bool) -> ToolboxState {
        ToolboxState { described, opened: described && opened, ..self }
    }

    /// The parameter sets after the units of a packet.
    pub open spec fn learned(self, units: Seq<Seq<u8>>) -> ToolboxState {
        ToolboxState {
            sps: last_of_type(units, SEQUENCE_PARAMETERS, self.sps),
            pps: last_of_type(units, PICTURE_PARAMETERS, self.pps),
            ..self
        }
    }

    /// Whether a session has to be opened: both parameter sets are known, and one has changed or
    /// there is no format yet.
    pub open spec fn rebuilds(self, units: Seq<Seq<u8>>) -> bool {
        let learned = self.learned(units);
        &&& learned.sps.len() > 0
        &&& learned.pps.len() > 0
        &&& !self.described || type_changes(units, SEQUENCE_PARAMETERS, self.sps) || type_changes(
            units,
            PICTURE_PARAMETERS,
            self.pps,
        )
    }

    /// The state after the units of a packet. A session that has to be opened anew is gone.
    pub open spec fn planned(self, units: Seq<Seq<u8>>) -> ToolboxState {
        if self.rebuilds(units) {
            ToolboxState { described: false, opened: false, ..self.learned(units) }
        } else {
            self.learned(units)
        }
    }
}

fn same_bytes(first: &[u8], second: &[u8]) -> (same: bool)
    ensures
        same == (first@ == second@),
{
    if first.len() != second.len() {
        return false;
    }
    let mut index: usize = 0;
    while index < first.len()
        invariant
            index <= first@.len() == second@.len(),
            forall|i: int| 0 <= i < index ==> first@[i] == second@[i],
        decreases first@.len() - index,
    {
        if first[index] != second[index] {
            return false;
        }
        index = index + 1;
    }
    assert(first@ =~= second@);
    true
}

impl VideoToolboxH264Decoder {
    pub fn new() -> (decoder: VideoToolboxH264Decoder)
        ensures
            decoder@ == (ToolboxState {
                sps: Seq::empty(),
                pps: Seq::empty(),
                described: false,
                opened: false,
            }),
    {
        VideoToolboxH264Decoder {
            sps: Vec::new(),
            pps: Vec::new(),
            described: false,
            opened: false,
        }
    }

    pub fn backend_name(&self) -> (name: &'static str)
        ensures
            name@ == "apple-videotoolbox-h264"@,
    {
        "apple-videotoolbox-h264"
    }

    pub fn capabilities(&self) -> (capabilities: DecoderCapabilities)
        ensures
            capabilities.backend@ == "apple-videotoolbox-h264"@,
            capabilities.codec == VideoCodec::H264,
            capabilities.hardware_accelerated,
            !capabilities.zero_copy_output,
            capabilities.low_latency,
    {
        DecoderCapabilities {
            backend: self.backend_name(),
            codec: VideoCodec::H264,
            hardware_accelerated: true,
            zero_copy_output: false,
            low_latency: true,
        }
    }

    /// The sequence parameter set, empty before one came.
    pub fn sequence_parameters(&self) -> (bytes: &[u8])
        ensures
            bytes@ == self@.sps,
    {
        self.sps.as_slice()
    }

    /// The picture parameter set, empty before one came.
    pub fn picture_parameters(&self) -> (bytes: &[u8])
        ensures
            bytes@ == self@.pps,
    {
        self.pps.as_slice()
    }

    /// Takes the parameter sets out of a packet and tells what has to be done with the session.
    pub fn plan(&mut self, packet: &EncodedVideoPacket) -> (result: Result<FormatAction, DcError>)
        ensures
            match result {
                Ok(action) => {
                    &&& packet@.codec == VideoCodec::H264
                    &&& nal_units(packet@.data) matches Ok(units)
                    &&& action == (if old(self)@.rebuilds(units) {
                        FormatAction::Rebuild
                    } else {
                        FormatAction::Keep
                    })
                    &&& final(self)@ == old(self)@.planned(units)
                },
                Err(error) => {
                    &&& final(self)@ == old(self)@
                    &&& if packet@.codec != VideoCodec::H264 {
                        error@ == DcErrorView::InvalidInput("VideoToolbox received non-H.264 data"@)
                    } else {
                        nal_units(packet@.data) == Err::<Seq<Seq<u8>>, DcErrorView>(error@)
                    }
                },
            },
    {
        if packet.codec() != VideoCodec::H264 {
            return Err(DcError::invalid_input("VideoToolbox received non-H.264 data"));
        }
        let units = split_h264_nal_units(packet.data())?;
        let ghost all = contents(units@);
        let ghost known = self@;
        let mut changed_sps = false;
        let mut changed_pps = false;
        let mut index: usize = 0;
        assert(all.take(0) =~= Seq::empty());
        while index < units.len()
            invariant
                index <= units@.len(),
                all == contents(units@),
                self@ == known.learned(all.take(index as int)),
                changed_sps == type_changes(
                    all.take(index as int),
                    SEQUENCE_PARAMETERS,
                    known.sps,
                ),
                changed_pps == type_changes(
                    all.take(index as int),
                    PICTURE_PARAMETERS,
                    known.pps,
                ),
            decreases units@.len() - index,
        {
            proof {
                assert(all.take(index + 1).drop_last() =~= all.take(index as int));
                assert(all.take(index + 1).last() == units@[index as int]@);
            }
            let unit = units[index];
            if unit.len() > 0 {
                if unit[0] % 32 == SEQUENCE_PARAMETERS {
                    if !same_bytes(self.sps.as_slice(), unit) {
                        self.sps = vstd::slice::slice_to_vec(unit);
                        changed_sps = true;
                    }
                } else if unit[0] % 32 == PICTURE_PARAMETERS {
                    if !same_bytes(self.pps.as_slice(), unit) {
                        self.pps = vstd::slice::slice_to_vec(unit);
                        changed_pps = true;
                    }
                }
            }
            index = index + 1;
        }
        assert(all.take(index as int) =~= all);
        if self.sps.len() == 0 || self.pps.len() == 0 {
            return Ok(FormatAction::Keep);
        }
        if self.described && !changed_sps && !changed_pps {
            return Ok(FormatAction::Keep);
        }
        self.described = false;
        self.opened = false;
        Ok(FormatAction::Rebuild)
    }

    /// Records how far a session could be opened.
    pub fn rebuilt(&mut self, described: bool, opened: bool)
        ensures
            final(self)@ == (ToolboxState { described, opened: described && opened, ..old(self)@ }),
            final(self)@ == old(self)@.rebuilt(described, opened),
    {
        self.described = described;
        self.opened = described && opened;
    }

    /// The sample of a packet. Until a session is open there is none.
    pub fn sample(&self, packet: &EncodedVideoPacket) -> (result: Result<Vec<u8>, DcError>)
        ensures
            match result {
                Ok(sample) => {
                    &&& self@.opened
                    &&& nal_units(packet@.data) matches Ok(units)
                    &&& sample_refusal(units) is None
                    &&& sample@ == avcc(units)
                },
                Err(error) => if !self@.opened {
                    error@ == DcErrorView::Codec("VideoToolbox is waiting for H.264 SPS/PPS"@)
                } else {
                    match nal_units(packet@.data) {
                        Err(failure) => error@ == failure,
                        Ok(units) => sample_refusal(units) == Some(error@),
                    }
                },
            },
    {
        if !self.opened {
            return Err(DcError::codec("VideoToolbox is waiting for H.264 SPS/PPS"));
        }
        let units = split_h264_nal_units(packet.data())?;
        annex_b_to_avcc(units.as_slice())
    }
}

/// A sample is its units, each behind the four bytes of its length, and is made where they fit.
pub proof fn law_samples_grow_unit_by_unit(units: Seq<Seq<u8>>, unit: Seq<u8>)
    ensures
        avcc(Seq::empty()) == Seq::<u8>::empty(),
        avcc(units.push(unit)) == avcc(units) + be_bytes(unit.len(), 4) + unit,
        avcc_length(Seq::empty()) == 0,
        avcc_length(units.push(unit)) == avcc_length(units) + 4 + unit.len(),
        sample_refusal(units) is None <==> avcc_length(units) <= usize::MAX && forall|i: int|
            0 <= i < units.len() ==> (#[trigger] units[i]).len() <= u32::MAX,
{
    assert(units.push(unit).drop_last() =~= units);
}

/// The parameters in use are the last that came: of the sequence in a unit of type seven, of the
/// picture in one of type eight.
pub proof fn law_last_parameters_are_kept(state: ToolboxState, units: Seq<Seq<u8>>, unit: Seq<u8>)
    ensures
        state.learned(Seq::empty()) == state,
        unit.len() > 0 && unit[0] as int % 32 == 7 ==> state.learned(units.push(unit)).sps == unit
            && state.learned(units.push(unit)).pps == state.learned(units).pps,
        unit.len() > 0 && unit[0] as int % 32 == 8 ==> state.learned(units.push(unit)).pps == unit
            && state.learned(units.push(unit)).sps == state.learned(units).sps,
        unit.len() == 0 || (unit[0] as int % 32 != 7 && unit[0] as int % 32 != 8) ==> state.learned(
            units.push(unit),
        ) == state.learned(units),
        state.learned(units).described == state.described,
        state.learned(units).opened == state.opened,
{
    assert(units.push(unit).drop_last() =~= units);
}

proof fn lemma_no_change(units: Seq<Seq<u8>>, wanted: u8, known: Seq<u8>)
    requires
        forall|i: int|
            0 <= i < units.len() && (#[trigger] units[i]).len() > 0 && unit_type(units[i]) == wanted
                ==> units[i] == known,
    ensures
        !type_changes(units, wanted, known),
        last_of_type(units, wanted, known) == known,
    decreases units.len(),
{
    if units.len() > 0 {
        let before = units.drop_last();
        assert forall|i: int|
            0 <= i < before.len() && (#[trigger] before[i]).len() > 0 && unit_type(before[i])
                == wanted implies before[i] == known by {
            assert(before[i] == units[i]);
        }
        lemma_no_change(before, wanted, known);
        assert(units.last() == units[units.len() - 1]);
    }
}

proof fn lemma_change(units: Seq<Seq<u8>>, wanted: u8, known: Seq<u8>)
    requires
        !type_changes(units, wanted, known),
    ensures
        last_of_type(units, wanted, known) == known,
        forall|i: int|
            0 <= i < units.len() && (#[trigger] units[i]).len() > 0 && unit_type(units[i]) == wanted
                ==> units[i] == known,
    decreases units.len(),
{
    if units.len() > 0 {
        let before = units.drop_last();
        lemma_change(before, wanted, known);
        assert forall|i: int|
            0 <= i < units.len() && (#[trigger] units[i]).len() > 0 && unit_type(units[i])
                == wanted implies units[i] == known by {
            if i < before.len() {
                assert(before[i] == units[i]);
            }
        }
    }
}

/// The decoder is rebuilt where both kinds of parameters are known and either it was not described
/// yet or one of the parameters came that is not the one in use; otherwise it is kept. Rebuilt, it is
/// described and opened anew.
pub proof fn law_new_parameters_rebuild_the_decoder(state: ToolboxState, units: Seq<Seq<u8>>)
    ensures
        ({
            let learned = state.learned(units);
            let same = forall|i: int|
                0 <= i < units.len() && (#[trigger] units[i]).len() > 0 ==> (units[i][0] as int % 32
                    == 7 ==> units[i] == state.sps) && (units[i][0] as int % 32 == 8 ==> units[i]
                    == state.pps);
            &&& state.rebuilds(units) <==> learned.sps.len() > 0 && learned.pps.len() > 0 && (
            !state.described || !same)
            &&& state.rebuilds(units) ==> !state.planned(units).described && !state.planned(
                units,
            ).opened && state.planned(units).sps == learned.sps && state.planned(units).pps
                == learned.pps
            &&& !state.rebuilds(units) ==> state.planned(units) == learned
        }),
{
    let same = forall|i: int|
        0 <= i < units.len() && (#[trigger] units[i]).len() > 0 ==> (units[i][0] as int % 32 == 7
            ==> units[i] == state.sps) && (units[i][0] as int % 32 == 8 ==> units[i] == state.pps);
    if same {
        lemma_no_change(units, SEQUENCE_PARAMETERS, state.sps);
        lemma_no_change(units, PICTURE_PARAMETERS, state.pps);
    }
    if !type_changes(units, SEQUENCE_PARAMETERS, state.sps) && !type_changes(
        units,
        PICTURE_PARAMETERS,
        state.pps,
    ) {
        lemma_change(units, SEQUENCE_PARAMETERS, state.sps);
        lemma_change(units, PICTURE_PARAMETERS, state.pps);
        assert forall|i: int| 0 <= i < units.len() && (#[trigger] units[i]).len() > 0 implies (
        units[i][0] as int % 32 == 7 ==> units[i] == state.sps) && (units[i][0] as int % 32 == 8
            ==> units[i] == state.pps) by {
            assert(unit_type(units[i]) as int == units[i][0] as int % 32);
        }
    }
}

/// A time is told to the nearest unit of its scale, and a picture is shown in four bytes a pixel where
/// it was decoded so, and in three where it was decoded to planes.
pub proof fn law_times_and_formats(time: Duration, timescale: u32)
    requires
        time.nanos * timescale <= 9_223_372_036_854_775_807_000_000_000,
    ensures
        2 * (time.nanos * timescale) - 1_000_000_000 < 2 * (scaled_time(time, timescale)
            * 1_000_000_000) <= 2 * (time.nanos * timescale) + 1_000_000_000,
        shown_format(0x4247_5241) == Some(PixelFormat::Bgra32),
        shown_format(0x3432_3076) == Some(PixelFormat::Rgb24),
        shown_format(0x3432_3066) == Some(PixelFormat::Rgb24),
        forall|format: u32| #[trigger]
            shown_format(format) is Some <==> format == 0x4247_5241 || format == 0x3432_3076
                || format == 0x3432_3066,
{
}

/// A decoder that was rebuilt for the parameters that it knows is kept for as long as none other come.
pub proof fn law_rebuilt_decoder_is_kept(state: ToolboxState, opened: bool)
    ensures
        state.rebuilt(true, opened).opened == opened,
        !state.rebuilt(false, opened).opened,
        state.rebuilt(true, opened).sps == state.sps,
        state.rebuilt(true, opened).pps == state.pps,
        !state.rebuilt(true, opened).rebuilds(Seq::empty()),
{
}

} // verus!
