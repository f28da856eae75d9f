//! A repeatable test picture and a sink that fingerprints what it is shown.
use crate::error::{DcError, DcErrorView};
use crate::media::frame::{
    layout_failure, no_metadata, row_bytes, FrameLayout, FrameSize, FrameView, PixelFormat,
    VideoFrame,
};
use crate::media::pipeline::{FrameSink, FrameSource};
use crate::time::Duration;
use vstd::prelude::*;

verus! {

/// Makes BGRA frames whose pixels depend on the position and on the sequence number.
pub struct SyntheticFrameSource {
    layout: FrameLayout,
    next_sequence: u64,
    next_timestamp: Duration,
    frame_interval: Duration,
}

/// Whether the longer of two equally near intervals is taken: the number of double precision that
/// is nearest to the fraction of a second lies above it. At 1,024 frames per second it is exact and
/// the even interval is taken; at the other two rates it lies below.
pub open spec fn rounds_up(frames_per_second: nat) -> bool {
    &&& frames_per_second != 1_024
    &&& frames_per_second != 16_000_000
    &&& frames_per_second != 80_000_000
}

/// The time between two frames: one second divided by the rate, to the nearest nanosecond.
pub open spec fn interval_nanos(frames_per_second: nat) -> nat {
    let whole = 1_000_000_000nat / frames_per_second;
    let twice_rest = 2 * (1_000_000_000nat % frames_per_second);
    if twice_rest > frames_per_second || (twice_rest == frames_per_second && rounds_up(
        frames_per_second,
    )) {
        whole + 1
    } else {
        whole
    }
}

/// The time between two frames.
pub(crate) fn frame_interval(frames_per_second: u32) -> (interval: Duration)
    requires
        frames_per_second > 0,
    ensures
        interval.nanos == interval_nanos(frames_per_second as nat),
{
    let rate: u64 = frames_per_second as u64;
    let whole: u64 = 1_000_000_000 / rate;
    let twice_rest: u64 = 2 * (1_000_000_000 % rate);
    assert(whole <= 1_000_000_000) by (nonlinear_arith)
        requires
            whole == 1_000_000_000u64 / rate,
            rate >= 1,
    ;
    let nanos: u64 = if twice_rest > rate || (twice_rest == rate && rate != 1_024 && rate != 16_000_000
        && rate != 80_000_000) {
        whole + 1
    } else {
        whole
    };
    Duration::from_nanos(nanos)
}

/// The bytes of one pixel: column and row counted from the sequence number, a multiple of the
/// sequence number, and full opacity.
pub open spec fn pixel_byte(x: int, y: int, channel: int, sequence: u64) -> u8 {
    if channel == 0 {
        ((x + sequence) % 256) as u8
    } else if channel == 1 {
        ((y + sequence) % 256) as u8
    } else if channel == 2 {
        ((7 * sequence) % 256) as u8
    } else {
        255
    }
}

/// The buffer of the frame with the given sequence number.
#[verifier::opaque]
pub open spec fn test_picture(width: u32, height: u32, sequence: u64) -> Seq<u8> {
    Seq::new(
        (4 * width * height) as nat,
        |i: int|
            pixel_byte((i / 4) % (width as int), (i / 4) / (width as int), i % 4, sequence),
    )
}

impl SyntheticFrameSource {
    #[verifier::type_invariant]
    spec fn inv(self) -> bool {
        &&& self.layout.facts()
        &&& self.layout.pixel_format() == PixelFormat::Bgra32
        &&& self.layout.stride() == 4 * self.layout.width()
    }

    pub closed spec fn the_layout(self) -> FrameLayout {
        self.layout
    }

    pub closed spec fn the_next_sequence(self) -> u64 {
        self.next_sequence
    }

    pub closed spec fn the_next_timestamp(self) -> Duration {
        self.next_timestamp
    }

    pub closed spec fn the_interval(self) -> Duration {
        self.frame_interval
    }

    pub fn new(size: FrameSize, frames_per_second: u32) -> (result: Result<Self, DcError>)
        ensures
            match result {
                Ok(source) => {
                    &&& frames_per_second > 0
                    &&& source.the_layout().size() == size
                    &&& source.the_layout().pixel_format() == PixelFormat::Bgra32
                    &&& source.the_layout().stride() == row_bytes(
                        size.width(),
                        PixelFormat::Bgra32,
                    )
                    &&& source.the_layout().facts()
                    &&& source.the_next_sequence() == 0
                    &&& source.the_next_timestamp().nanos == 0
                    &&& source.the_interval().nanos == interval_nanos(frames_per_second as nat)
                },
                Err(e) => if frames_per_second == 0 {
                    e@ == DcErrorView::InvalidInput("synthetic frame rate must be non-zero"@)
                } else {
                    layout_failure(
                        size.width(),
                        size.height(),
                        PixelFormat::Bgra32,
                        row_bytes(size.width(), PixelFormat::Bgra32),
                    ) == Some(e@)
                },
            },
    {
        if frames_per_second == 0 {
            return Err(DcError::invalid_input("synthetic frame rate must be non-zero"));
        }
        let layout = FrameLayout::packed(size, PixelFormat::Bgra32)?;
        Ok(
            SyntheticFrameSource {
                layout,
                next_sequence: 0,
                next_timestamp: Duration::zero(),
                frame_interval: frame_interval(frames_per_second),
            },
        )
    }
}

/// The bytes before a row fit in the buffer, and so does the row.
proof fn lemma_row_bounds(stride: int, row: int, height: int)
    requires
        0 <= row < height,
        0 <= stride,
    ensures
        0 <= stride * row,
        stride * row + stride <= stride * height,
{
    assert(stride * row + stride <= stride * height && 0 <= stride * row) by (nonlinear_arith)
        requires
            0 <= row < height,
            0 <= stride,
    ;
}

/// The position of a byte of a pixel in a packed BGRA buffer, taken apart again.
proof fn lemma_pixel_position(width: int, x: int, y: int, channel: int)
    requires
        0 <= x < width,
        0 <= y,
        0 <= channel < 4,
    ensures
        ({
            let i = 4 * width * y + 4 * x + channel;
            &&& i / 4 == width * y + x
            &&& i % 4 == channel
            &&& (i / 4) % width == x
            &&& (i / 4) / width == y
        }),
{
    let i = 4 * width * y + 4 * x + channel;
    let pixel = width * y + x;
    assert(4 * width * y == 4 * (width * y)) by (nonlinear_arith);
    assert(i == 4 * pixel + channel);
    assert(pixel % width == x && pixel / width == y) by {
        vstd::arithmetic::div_mod::lemma_fundamental_div_mod_converse(pixel, width, y, x);
    }
}

/// The four bytes of the pixel at column `x` of row `y` in the test picture.
proof fn lemma_picture_pixel(width: u32, height: u32, sequence: u64, x: int, y: int, base: int)
    requires
        0 <= x < width,
        0 <= y < height,
        base == 4 * width * y + 4 * x,
    ensures
        0 <= base,
        base + 4 <= test_picture(width, height, sequence).len(),
        test_picture(width, height, sequence).len() == 4 * width * height,
        test_picture(width, height, sequence)[base] == pixel_byte(x, y, 0, sequence),
        test_picture(width, height, sequence)[base + 1] == pixel_byte(x, y, 1, sequence),
        test_picture(width, height, sequence)[base + 2] == pixel_byte(x, y, 2, sequence),
        test_picture(width, height, sequence)[base + 3] == pixel_byte(x, y, 3, sequence),
{
    reveal(test_picture);
    lemma_row_bounds(4 * width, y, height as int);
    lemma_pixel_position(width as int, x, y, 0);
    lemma_pixel_position(width as int, x, y, 1);
    lemma_pixel_position(width as int, x, y, 2);
    lemma_pixel_position(width as int, x, y, 3);
}

/// The low byte of a coordinate plus the sequence number.
fn counted(coordinate: usize, sequence: u64) -> (byte: u8)
    ensures
        byte == ((coordinate + sequence) % 256) as u8,
{
    proof {
        vstd::arithmetic::div_mod::lemma_add_mod_noop(coordinate as int, sequence as int, 256);
    }
    ((coordinate as u64 % 256 + sequence % 256) % 256) as u8
}

/// The low byte of seven times the sequence number.
fn scaled(sequence: u64) -> (byte: u8)
    ensures
        byte == ((7 * sequence) % 256) as u8,
{
    proof {
        let whole = sequence as int / 256;
        let rest = sequence as int % 256;
        assert(7 * sequence == 256 * (7 * whole) + 7 * rest);
        vstd::arithmetic::div_mod::lemma_mod_multiples_vanish(7 * whole, 7 * rest, 256);
    }
    ((7 * (sequence % 256)) % 256) as u8
}

/// Appends the pixels of one row.
fn put_row(data: &mut Vec<u8>, width: u32, height: u32, y: u32, sequence: u64)
    requires
        y < height,
        width > 0,
        old(data)@.len() == 4 * width * y,
        old(data)@ == test_picture(width, height, sequence).take(4 * width * y),
    ensures
        final(data)@.len() == 4 * width * (y + 1),
        final(data)@ == test_picture(width, height, sequence).take(4 * width * (y + 1)),
{
    let ghost picture = test_picture(width, height, sequence);
    let ghost start = 4 * width * y;
    let mut x: u32 = 0;
    proof {
        lemma_picture_pixel(width, height, sequence, 0, y as int, start);
        lemma_row_bounds(4 * width, y as int, height as int);
        assert(4 * width * (y + 1) == start + 4 * width) by (nonlinear_arith)
            requires
                start == 4 * width * y,
        ;
    }
    while x < width
        invariant
            x <= width,
            y < height,
            picture == test_picture(width, height, sequence),
            start == 4 * width * y,
            start + 4 * width <= picture.len(),
            0 <= start,
            data@ == picture.take(start + 4 * x),
            data@.len() == start + 4 * x,
        decreases width - x,
    {
        let ghost base = start + 4 * x;
        proof {
            lemma_picture_pixel(width, height, sequence, x as int, y as int, base);
        }
        let ghost before = data@;
        data.push(counted(x as usize, sequence));
        data.push(counted(y as usize, sequence));
        data.push(scaled(sequence));
        data.push(255);
        proof {
            assert(picture.take(base + 4) =~= before.push(picture[base]).push(picture[base + 1]).push(
                picture[base + 2],
            ).push(picture[base + 3]));
        }
        x = x + 1;
    }
}

impl FrameSource for SyntheticFrameSource {
    open spec fn captures(&self, after: &Self, result: Result<VideoFrame, DcError>) -> bool {
        &&& result matches Ok(frame) && frame@ == (FrameView {
            sequence: self.the_next_sequence(),
            timestamp: self.the_next_timestamp(),
            layout: self.the_layout(),
            data: test_picture(
                self.the_layout().width(),
                self.the_layout().height(),
                self.the_next_sequence(),
            ),
            metadata: no_metadata(),
        })
        &&& after.the_layout() == self.the_layout()
        &&& after.the_interval() == self.the_interval()
        &&& after.the_next_sequence() == self.the_next_sequence().wrapping_add(1)
        &&& after.the_next_timestamp() == self.the_next_timestamp().plus(self.the_interval())
    }

    fn capture(&mut self) -> Result<VideoFrame, DcError> {
        proof {
            use_type_invariant(&*self);
        }
        let sequence: u64 = self.next_sequence;
        let timestamp = self.next_timestamp;
        let layout = self.layout;
        let size = layout.size();
        let width: u32 = size.width();
        let height: u32 = size.height();
        let mut data: Vec<u8> = Vec::with_capacity(layout.data_len());
        let ghost picture = test_picture(width, height, sequence);
        let mut y: u32 = 0;
        proof {
            assert(4 * width * 0 == 0) by (nonlinear_arith);
            assert(picture.take(0) =~= Seq::empty());
        }
        while y < height
            invariant
                y <= height,
                width > 0,
                picture == test_picture(width, height, sequence),
                data@.len() == 4 * width * y,
                data@ == picture.take(4 * width * y),
            decreases height - y,
        {
            put_row(&mut data, width, height, y, sequence);
            y = y + 1;
        }
        proof {
            reveal(test_picture);
            assert(data@ =~= picture);
        }
        assert(4 * width * height == layout.stride() * layout.height());
        self.next_sequence = self.next_sequence.wrapping_add(1);
        self.next_timestamp = self.next_timestamp.saturating_add(self.frame_interval);
        VideoFrame::new(sequence, timestamp, layout, data)
    }
}

/// Successive frames of the source never show the same picture.
pub proof fn law_successive_pictures_differ(width: u32, height: u32, sequence: u64)
    requires
        width > 0,
        height > 0,
    ensures
        test_picture(width, height, sequence) != test_picture(
            width,
            height,
            sequence.wrapping_add(1),
        ),
{
    reveal(test_picture);
    let first = test_picture(width, height, sequence);
    let second = test_picture(width, height, sequence.wrapping_add(1));
    assert(4 * width * height >= 4) by (nonlinear_arith)
        requires
            width > 0,
            height > 0,
    ;
    lemma_pixel_position(width as int, 0, 0, 0);
    assert(4 * width * 0 == 0) by (nonlinear_arith);
    assert(first[0] == (sequence % 256) as u8);
    assert(second[0] == (sequence.wrapping_add(1) % 256) as u8);
}

/// Counts frames and fingerprints the last one.
#[derive(Debug)]
pub struct ChecksumSink {
    frames_presented: u64,
    last_sequence: Option<u64>,
    last_checksum: Option<u64>,
}

/// The 64-bit FNV-1a hash of a byte string.
pub open spec fn fnv1a(bytes: Seq<u8>) -> u64
    decreases bytes.len(),
{
    if bytes.len() == 0 {
        0xcbf29ce484222325
    } else {
        (fnv1a(bytes.drop_last()) ^ (bytes.last() as u64)).wrapping_mul(0x100000001b3)
    }
}

impl ChecksumSink {
    pub closed spec fn count(self) -> u64 {
        self.frames_presented
    }

    pub closed spec fn sequence(self) -> Option<u64> {
        self.last_sequence
    }

    pub closed spec fn checksum(self) -> Option<u64> {
        self.last_checksum
    }

    pub fn frames_presented(&self) -> (result: u64)
        ensures
            result == self.count(),
    {
        self.frames_presented
    }

    pub fn last_sequence(&self) -> (result: Option<u64>)
        ensures
            result == self.sequence(),
    {
        self.last_sequence
    }

    pub fn last_checksum(&self) -> (result: Option<u64>)
        ensures
            result == self.checksum(),
    {
        self.last_checksum
    }
}

impl Default for ChecksumSink {
    fn default() -> (sink: ChecksumSink)
        ensures
            sink.count() == 0,
            sink.sequence() is None,
            sink.checksum() is None,
    {
        ChecksumSink { frames_presented: 0, last_sequence: None, last_checksum: None }
    }
}

impl FrameSink for ChecksumSink {
    open spec fn presents(
        &self,
        after: &Self,
        frame: VideoFrame,
        result: Result<(), DcError>,
    ) -> bool {
        &&& result is Ok
        &&& after.count() == self.count().wrapping_add(1)
        &&& after.sequence() == Some(frame@.sequence)
        &&& after.checksum() == Some(fnv1a(frame@.data))
    }

    fn present(&mut self, frame: VideoFrame) -> Result<(), DcError> {
        // FNV-1a makes frame changes observable without adding a hashing dependency.
        let data = frame.data();
        let mut hash: u64 = 0xcbf29ce484222325;
        let mut index: usize = 0;
        assert(data@.take(0) =~= Seq::empty());
        while index < data.len()
            invariant
                index <= data@.len(),
                hash == fnv1a(data@.take(index as int)),
            decreases data@.len() - index,
        {
            assert(data@.take(index + 1).drop_last() =~= data@.take(index as int));
            hash = (hash ^ (data[index] as u64)).wrapping_mul(0x100000001b3);
            index = index + 1;
        }
        assert(data@.take(index as int) =~= data@);
        self.frames_presented = self.frames_presented.wrapping_add(1);
        self.last_sequence = Some(frame.sequence());
        self.last_checksum = Some(hash);
        Ok(())
    }
}

/// The time between two frames is the whole number of nanoseconds that comes nearest to the frames'
/// share of a second.
pub proof fn law_interval_is_the_nearest(frames_per_second: nat)
    requires
        frames_per_second > 0,
    ensures
        2 * (interval_nanos(frames_per_second) * frames_per_second) <= 2_000_000_000
            + frames_per_second,
        2_000_000_000 <= 2 * (interval_nanos(frames_per_second) * frames_per_second)
            + frames_per_second,
        frames_per_second <= 1_000_000_000 ==> 0 < interval_nanos(frames_per_second)
            <= 1_000_000_000,
{
    let fps = frames_per_second as int;
    let whole = 1_000_000_000int / fps;
    let rest = 1_000_000_000int % fps;
    vstd::arithmetic::div_mod::lemma_fundamental_div_mod(1_000_000_000, fps);
    vstd::arithmetic::div_mod::lemma_mod_bound(1_000_000_000, fps);
    assert(whole * fps == fps * whole && (whole + 1) * fps == fps * whole + fps)
        by (nonlinear_arith);
    assert(fps <= 1_000_000_000 ==> whole >= 1) by (nonlinear_arith)
        requires
            fps > 0,
            1_000_000_000 == fps * whole + rest,
            0 <= rest < fps,
    ;
    assert(whole <= 1_000_000_000) by (nonlinear_arith)
        requires
            fps > 0,
            1_000_000_000 == fps * whole + rest,
            0 <= rest < fps,
    ;
    assert(fps == 1 ==> rest == 0);
    assert(fps > 1 ==> whole < 1_000_000_000) by (nonlinear_arith)
        requires
            1_000_000_000 == fps * whole + rest,
            0 <= rest < fps,
    ;
}

/// The test picture, pixel by pixel: its blue counts the columns, its green the rows, both from the
/// picture's number on; its red is seven times the number; and it is opaque.
pub proof fn law_test_picture_counts(width: u32, height: u32, sequence: u64, x: int, y: int)
    requires
        0 <= x < width,
        0 <= y < height,
    ensures
        ({
            let picture = test_picture(width, height, sequence);
            let at = 4 * (y * width + x);
            &&& picture.len() == 4 * width * height
            &&& picture[at] == (x + sequence) % 256
            &&& picture[at + 1] == (y + sequence) % 256
            &&& picture[at + 2] == (7 * sequence) % 256
            &&& picture[at + 3] == 255
        }),
{
    let number = y * width + x;
    let at = 4 * number;
    vstd::arithmetic::div_mod::lemma_fundamental_div_mod_converse(number, width as int, y, x);
    assert(at / 4 == number && (at + 1) / 4 == number && (at + 2) / 4 == number && (at + 3) / 4
        == number);
    assert(at % 4 == 0 && (at + 1) % 4 == 1 && (at + 2) % 4 == 2 && (at + 3) % 4 == 3);
    assert(0 <= number && number < width * height) by (nonlinear_arith)
        requires
            number == y * width + x,
            0 <= x < width,
            0 <= y < height,
    ;
    assert(4 * width * height == 4 * (width * height)) by (nonlinear_arith);
    reveal(test_picture);
    let picture = test_picture(width, height, sequence);
    assert(picture.len() == 4 * width * height);
    assert(0 <= at && at + 3 < picture.len());
    assert(picture[at] == pixel_byte(x, y, 0, sequence));
    assert(picture[at + 1] == pixel_byte(x, y, 1, sequence));
    assert(picture[at + 2] == pixel_byte(x, y, 2, sequence));
    assert(picture[at + 3] == pixel_byte(x, y, 3, sequence));
}

/// The frames of the test source are numbered from zero on and one interval apart, and show the test
/// picture of their number.
pub proof fn law_test_frames_follow_one_another(
    source: SyntheticFrameSource,
    after: SyntheticFrameSource,
    result: Result<VideoFrame, DcError>,
)
    requires
        source.captures(&after, result),
    ensures
        result is Ok,
        result->Ok_0@.sequence == source.the_next_sequence(),
        result->Ok_0@.timestamp == source.the_next_timestamp(),
        result->Ok_0@.layout == source.the_layout(),
        result->Ok_0@.data == test_picture(
            source.the_layout().width(),
            source.the_layout().height(),
            source.the_next_sequence(),
        ),
        source.the_next_sequence() < u64::MAX ==> after.the_next_sequence()
            == source.the_next_sequence() + 1,
        after.the_next_timestamp() == source.the_next_timestamp().plus(source.the_interval()),
        after.the_layout() == source.the_layout(),
        after.the_interval() == source.the_interval(),
{
}

/// The checksum begins at a fixed number; each byte is mixed into its lowest eight bits and the whole
/// multiplied by a fixed prime, modulo two to the sixty-fourth. The sink tells the checksum of the
/// last frame, its number, and how many there were.
pub proof fn law_checksum_takes_each_byte(
    bytes: Seq<u8>,
    byte: u8,
    sink: ChecksumSink,
    after: ChecksumSink,
    frame: VideoFrame,
    result: Result<(), DcError>,
)
    ensures
        fnv1a(Seq::empty()) == 14_695_981_039_346_656_037,
        fnv1a(bytes.push(byte)) == ((fnv1a(bytes) ^ (byte as u64)) * 1_099_511_628_211)
            % 0x1_0000_0000_0000_0000,
        sink.presents(&after, frame, result) ==> {
            &&& result is Ok
            &&& after.checksum() == Some(fnv1a(frame@.data))
            &&& after.sequence() == Some(frame@.sequence)
            &&& sink.count() < u64::MAX ==> after.count() == sink.count() + 1
        },
{
    assert(bytes.push(byte).drop_last() =~= bytes);
}

} // verus!
