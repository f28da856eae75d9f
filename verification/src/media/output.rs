//! A sink that keeps the last frame, and the bitmap file of a frame.
use crate::error::{DcError, DcErrorView};
use crate::media::frame::{row_bytes, FrameView, PixelFormat, VideoFrame};
use crate::media::pipeline::FrameSink;
use vstd::prelude::*;

verus! {

/// Counts frames and keeps the last one.
#[derive(Debug)]
pub struct LastFrameSink {
    frames_presented: u64,
    last_frame: Option<VideoFrame>,
}

impl LastFrameSink {
    pub closed spec fn count(self) -> u64 {
        self.frames_presented
    }

    pub closed spec fn kept(self) -> Option<VideoFrame> {
        self.last_frame
    }

    pub fn frames_presented(&self) -> (result: u64)
        ensures
            result == self.count(),
    {
        self.frames_presented
    }

    pub fn last_frame(&self) -> (result: Option<&VideoFrame>)
        ensures
            match result {
                Some(frame) => self.kept() == Some(*frame),
                None => self.kept() is None,
            },
    {
        match &self.last_frame {
            Some(frame) => Some(frame),
            None => None,
        }
    }

    pub fn into_last_frame(self) -> (result: Option<VideoFrame>)
        ensures
            result == self.kept(),
    {
        self.last_frame
    }
}

impl Default for LastFrameSink {
    fn default() -> (sink: LastFrameSink)
        ensures
            sink.count() == 0,
            sink.kept() is None,
    {
        LastFrameSink { frames_presented: 0, last_frame: None }
    }
}

impl FrameSink for LastFrameSink {
    open spec fn presents(
        &self,
        after: &Self,
        frame: VideoFrame,
        result: Result<(), DcError>,
    ) -> bool {
        &&& result is Ok
        &&& after.count() == self.count().wrapping_add(1)
        &&& after.kept() == Some(frame)
    }

    fn present(&mut self, frame: VideoFrame) -> Result<(), DcError> {
        self.frames_presented = self.frames_presented.wrapping_add(1);
        self.last_frame = Some(frame);
        Ok(())
    }
}

/// The `width` low bytes of a number, least significant byte first.
pub open spec fn le_bytes(value: nat, width: nat) -> Seq<u8>
    decreases width,
{
    if width == 0 {
        Seq::empty()
    } else {
        seq![(value % 256) as u8] + le_bytes(value / 256, (width - 1) as nat)
    }
}

fn put_le(out: &mut Vec<u8>, value: u32, width: usize)
    ensures
        final(out)@ == old(out)@ + le_bytes(value as nat, width as nat),
    decreases width,
{
    if width > 0 {
        out.push((value % 256) as u8);
        put_le(out, value / 256, width - 1);
    }
    assert(out@ =~= old(out)@ + le_bytes(value as nat, width as nat));
}

/// The two headers of a bitmap file with 32 bits per pixel.
pub open spec fn bmp_header(width: nat, height: nat) -> Seq<u8> {
    let pixel_bytes = width * height * 4;
    seq![0x42u8, 0x4du8] + le_bytes(54 + pixel_bytes, 4) + le_bytes(0, 4) + le_bytes(54, 4)
        + le_bytes(40, 4) + le_bytes(width, 4) + le_bytes(height, 4) + le_bytes(1, 2) + le_bytes(
        32,
        2,
    ) + le_bytes(0, 4) + le_bytes(pixel_bytes, 4) + le_bytes(2835, 4) + le_bytes(2835, 4)
        + le_bytes(0, 4) + le_bytes(0, 4)
}

/// The first `count` pixels of a row as blue, green, red and alpha; pixels without alpha are
/// opaque.
pub open spec fn bgra_pixels(row: Seq<u8>, format: PixelFormat, count: nat) -> Seq<u8>
    decreases count,
{
    if count == 0 {
        Seq::empty()
    } else {
        let last = count - 1;
        bgra_pixels(row, format, last as nat) + if format == PixelFormat::Rgb24 {
            seq![row[3 * last + 2], row[3 * last + 1], row[3 * last], 255u8]
        } else {
            seq![row[4 * last], row[4 * last + 1], row[4 * last + 2], row[4 * last + 3]]
        }
    }
}

/// The bytes of row `y` of a frame, with padding.
pub open spec fn frame_row(frame: FrameView, y: int) -> Seq<u8> {
    frame.data.subrange(y * frame.layout.stride(), (y + 1) * frame.layout.stride())
}

/// The pixels of the `count` lowest rows, the lowest first.
pub open spec fn rows_upward(frame: FrameView, count: nat) -> Seq<u8>
    decreases count,
{
    if count == 0 {
        Seq::empty()
    } else {
        rows_upward(frame, (count - 1) as nat) + bgra_pixels(
            frame_row(frame, frame.layout.height() - count),
            frame.layout.pixel_format(),
            frame.layout.width() as nat,
        )
    }
}

/// The bitmap file of a frame: the headers, and the rows from the bottom up.
pub open spec fn bmp_image(frame: FrameView) -> Seq<u8> {
    bmp_header(frame.layout.width() as nat, frame.layout.height() as nat) + rows_upward(
        frame,
        frame.layout.height() as nat,
    )
}

/// Why a frame of the given size has no bitmap file, if it has none.
pub open spec fn bmp_failure(width: u32, height: u32) -> Option<DcErrorView> {
    if width > i32::MAX {
        Some(DcErrorView::InvalidInput("BMP width exceeds i32"@))
    } else if height > i32::MAX {
        Some(DcErrorView::InvalidInput("BMP height exceeds i32"@))
    } else if width * height * 4 > u32::MAX {
        Some(DcErrorView::InvalidInput("BMP pixel data is too large"@))
    } else if 54 + width * height * 4 > u32::MAX {
        Some(DcErrorView::InvalidInput("BMP file size overflowed"@))
    } else {
        None
    }
}

fn bmp_header_bytes(width: u32, height: u32, pixel_bytes: u32, file_size: u32) -> (out: Vec<u8>)
    requires
        pixel_bytes == width * height * 4,
        file_size == 54 + pixel_bytes,
    ensures
        out@ == bmp_header(width as nat, height as nat),
{
    let mut out: Vec<u8> = Vec::new();
    out.push(0x42);
    out.push(0x4d);
    put_le(&mut out, file_size, 4);
    put_le(&mut out, 0, 4);
    put_le(&mut out, 54, 4);
    put_le(&mut out, 40, 4);
    put_le(&mut out, width, 4);
    put_le(&mut out, height, 4);
    put_le(&mut out, 1, 2);
    put_le(&mut out, 32, 2);
    put_le(&mut out, 0, 4);
    put_le(&mut out, pixel_bytes, 4);
    put_le(&mut out, 2835, 4);
    put_le(&mut out, 2835, 4);
    put_le(&mut out, 0, 4);
    put_le(&mut out, 0, 4);
    assert(width as nat * height as nat * 4 == pixel_bytes);
    out
}

fn put_pixels(out: &mut Vec<u8>, row: &[u8], format: PixelFormat, width: u32)
    requires
        format != PixelFormat::I420,
        row@.len() >= row_bytes(width, format),
    ensures
        final(out)@ == old(out)@ + bgra_pixels(row@, format, width as nat),
{
    let available: usize = row.len();
    let mut x: u32 = 0;
    assert(out@ =~= old(out)@ + bgra_pixels(row@, format, 0));
    while x < width
        invariant
            x <= width,
            available == row@.len(),
            format != PixelFormat::I420,
            row@.len() >= row_bytes(width, format),
            out@ == old(out)@ + bgra_pixels(row@, format, x as nat),
        decreases width - x,
    {
        match format {
            PixelFormat::Rgb24 => {
                assert(row_bytes(width, format) == 3 * width);
                let at: usize = 3 * x as usize;
                out.push(row[at + 2]);
                out.push(row[at + 1]);
                out.push(row[at]);
                out.push(255);
            },
            _ => {
                assert(format is Bgra32);
                assert(row_bytes(width, format) == 4 * width);
                let at: usize = 4 * x as usize;
                out.push(row[at]);
                out.push(row[at + 1]);
                out.push(row[at + 2]);
                out.push(row[at + 3]);
            },
        }
        assert(out@ =~= old(out)@ + bgra_pixels(row@, format, (x + 1) as nat));
        x = x + 1;
    }
}

/// The bytes before a row and the row itself lie in the buffer.
pub(crate) proof fn lemma_row_in_buffer(stride: int, row: int, height: int)
    requires
        0 <= row < height,
        0 <= stride,
    ensures
        0 <= row * stride,
        (row + 1) * stride == row * stride + stride,
        (row + 1) * stride <= stride * height,
        row * stride + stride <= stride * height,
{
    assert((row + 1) * stride == row * stride + stride && 0 <= row * stride) by (nonlinear_arith)
        requires
            0 <= row,
            0 <= stride,
    ;
    assert((row + 1) * stride <= stride * height) by (nonlinear_arith)
        requires
            0 <= row < height,
            0 <= stride,
    ;
}

/// A packed RGB or BGRA frame as a 32-bit bitmap file for visual diagnostics; the program writes
/// it to disk.
pub fn bmp_bytes(frame: &VideoFrame) -> (result: Result<Vec<u8>, DcError>)
    ensures
        match result {
            Ok(bytes) => bmp_failure(frame@.layout.width(), frame@.layout.height()) is None
                && bytes@ == bmp_image(frame@),
            Err(e) => bmp_failure(frame@.layout.width(), frame@.layout.height()) == Some(e@),
        },
{
    let layout = frame.layout();
    let format = layout.pixel_format();
    let size = layout.size();
    let width: u32 = size.width();
    let height: u32 = size.height();
    let stride: usize = layout.stride();
    let data = frame.data();
    if width > 0x7fff_ffff {
        return Err(DcError::invalid_input("BMP width exceeds i32"));
    }
    if height > 0x7fff_ffff {
        return Err(DcError::invalid_input("BMP height exceeds i32"));
    }
    assert(width * height <= 0x3fff_ffff_ffff_ffff) by (nonlinear_arith)
        requires
            width <= 0x7fff_ffff,
            height <= 0x7fff_ffff,
    ;
    let pixels: u64 = width as u64 * height as u64;
    if pixels > 0x3fff_ffff {
        return Err(DcError::invalid_input("BMP pixel data is too large"));
    }
    let pixel_bytes: u32 = pixels as u32 * 4;
    if pixel_bytes > 0xffff_ffff - 54 {
        return Err(DcError::invalid_input("BMP file size overflowed"));
    }
    let file_size: u32 = 54 + pixel_bytes;
    let mut output = bmp_header_bytes(width, height, pixel_bytes, file_size);
    let ghost header = bmp_header(width as nat, height as nat);
    let mut written: u32 = 0;
    assert(output@ =~= header + rows_upward(frame@, 0));
    while written < height
        invariant
            written <= height,
            data@ == frame@.data,
            layout == frame@.layout,
            frame@.facts(),
            width == layout.width(),
            height == layout.height(),
            stride == layout.stride(),
            format == layout.pixel_format(),
            output@ == header + rows_upward(frame@, written as nat),
        decreases height - written,
    {
        let y: u32 = height - 1 - written;
        proof {
            lemma_row_in_buffer(stride as int, y as int, height as int);
        }
        let start: usize = y as usize * stride;
        let row = vstd::slice::slice_subrange(data, start, start + stride);
        put_pixels(&mut output, row, format, width);
        proof {
            assert(row@ =~= frame_row(frame@, height - (written + 1)));
            assert(output@ =~= header + rows_upward(frame@, (written + 1) as nat));
        }
        written = written + 1;
    }
    Ok(output)
}

/// The number that stands at a position, its lowest byte first.
pub open spec fn low_first_at(bytes: Seq<u8>, at: int, width: nat) -> int
    decreases width,
{
    if width == 0 {
        0
    } else {
        bytes[at] + 256 * low_first_at(bytes, at + 1, (width - 1) as nat)
    }
}

proof fn lemma_low_first(bytes: Seq<u8>, at: int, value: nat, width: nat)
    requires
        0 <= at,
        at + width <= bytes.len(),
        bytes.subrange(at, at + width) == le_bytes(value, width),
        value < crate::bytes::byte_range(width),
    ensures
        low_first_at(bytes, at, width) == value,
    decreases width,
{
    if width > 0 {
        let part = bytes.subrange(at, at + width);
        let rest = le_bytes(value / 256, (width - 1) as nat);
        lemma_le_len(value / 256, (width - 1) as nat);
        assert(part[0] == bytes[at]);
        assert(part == seq![(value % 256) as u8] + rest);
        assert(bytes.subrange(at + 1, at + width) =~= part.skip(1));
        assert(part.skip(1) =~= rest);
        lemma_low_first(bytes, at + 1, value / 256, (width - 1) as nat);
    }
}

proof fn lemma_le_len(value: nat, width: nat)
    ensures
        le_bytes(value, width).len() == width,
    decreases width,
{
    if width > 0 {
        lemma_le_len(value / 256, (width - 1) as nat);
    }
}

/// The header of a bitmap file: its letters, the file's length, where the pixels begin, the picture's
/// size, one plane of thirty-two bits a pixel, not packed, and how many bytes the pixels take.
#[verifier::spinoff_prover]
#[verifier::rlimit(80)]
pub proof fn law_bitmap_header(width: u32, height: u32)
    requires
        54 + width * height * 4 <= u32::MAX,
    ensures
        ({
            let header = bmp_header(width as nat, height as nat);
            &&& header.len() == 54
            &&& header[0] == 0x42
            &&& header[1] == 0x4d
            &&& low_first_at(header, 2, 4) == 54 + 4 * (width * height)
            &&& low_first_at(header, 6, 4) == 0
            &&& low_first_at(header, 10, 4) == 54
            &&& low_first_at(header, 14, 4) == 40
            &&& low_first_at(header, 18, 4) == width
            &&& low_first_at(header, 22, 4) == height
            &&& low_first_at(header, 26, 2) == 1
            &&& low_first_at(header, 28, 2) == 32
            &&& low_first_at(header, 30, 4) == 0
            &&& low_first_at(header, 34, 4) == 4 * (width * height)
            &&& low_first_at(header, 38, 4) == 2_835
            &&& low_first_at(header, 42, 4) == 2_835
            &&& low_first_at(header, 46, 4) == 0
            &&& low_first_at(header, 50, 4) == 0
        }),
{
    let header = bmp_header(width as nat, height as nat);
    let pixels = (width as nat * height as nat * 4) as nat;
    assert(width * height * 4 == pixels && pixels == 4 * (width * height)) by (nonlinear_arith)
        requires
            pixels == width as nat * height as nat * 4,
    ;
    crate::bytes::lemma_byte_range();
    assert forall|value: nat, count: nat| #[trigger] le_bytes(value, count).len() == count by {
        lemma_le_len(value, count);
    }
    assert(header.subrange(2, 6) =~= le_bytes((54 + pixels) as nat, 4));
    lemma_low_first(header, 2, (54 + pixels) as nat, 4);
    assert(header.subrange(6, 10) =~= le_bytes(0, 4));
    lemma_low_first(header, 6, 0, 4);
    assert(header.subrange(10, 14) =~= le_bytes(54, 4));
    lemma_low_first(header, 10, 54, 4);
    assert(header.subrange(14, 18) =~= le_bytes(40, 4));
    lemma_low_first(header, 14, 40, 4);
    assert(header.subrange(18, 22) =~= le_bytes(width as nat, 4));
    lemma_low_first(header, 18, width as nat, 4);
    assert(header.subrange(22, 26) =~= le_bytes(height as nat, 4));
    lemma_low_first(header, 22, height as nat, 4);
    assert(header.subrange(26, 28) =~= le_bytes(1, 2));
    lemma_low_first(header, 26, 1, 2);
    assert(header.subrange(28, 30) =~= le_bytes(32, 2));
    lemma_low_first(header, 28, 32, 2);
    assert(header.subrange(30, 34) =~= le_bytes(0, 4));
    lemma_low_first(header, 30, 0, 4);
    assert(header.subrange(34, 38) =~= le_bytes(pixels, 4));
    lemma_low_first(header, 34, pixels, 4);
    assert(header.subrange(38, 42) =~= le_bytes(2835, 4));
    lemma_low_first(header, 38, 2835, 4);
    assert(header.subrange(42, 46) =~= le_bytes(2835, 4));
    lemma_low_first(header, 42, 2835, 4);
    assert(header.subrange(46, 50) =~= le_bytes(0, 4));
    lemma_low_first(header, 46, 0, 4);
    assert(header.subrange(50, 54) =~= le_bytes(0, 4));
    lemma_low_first(header, 50, 0, 4);
}

proof fn lemma_pixel_in_row(row: Seq<u8>, format: PixelFormat, count: nat, x: int, part: int)
    requires
        0 <= x < count,
        0 <= part < 4,
    ensures
        bgra_pixels(row, format, count).len() == 4 * count,
        bgra_pixels(row, format, count)[4 * x + part] == (if format != PixelFormat::Rgb24 {
            row[4 * x + part]
        } else if part == 3 {
            255
        } else {
            row[3 * x + 2 - part]
        }),
    decreases count,
{
    if count > 1 {
        lemma_pixel_in_row(row, format, (count - 1) as nat, if x < count - 1 {
            x
        } else {
            0
        }, part);
    } else {
        assert(bgra_pixels(row, format, 0).len() == 0);
    }
}

proof fn lemma_row_in_file(frame: FrameView, count: nat, row: int, i: int)
    requires
        frame.facts(),
        0 <= row < count <= frame.layout.height(),
        0 <= i < 4 * frame.layout.width(),
    ensures
        rows_upward(frame, count).len() == 4 * (count * frame.layout.width()),
        0 <= 4 * (row * frame.layout.width()),
        4 * (row * frame.layout.width()) + 4 * frame.layout.width() <= 4 * (count
            * frame.layout.width()),
        rows_upward(frame, count)[4 * (row * frame.layout.width()) + i] == bgra_pixels(
            frame_row(frame, frame.layout.height() - 1 - row),
            frame.layout.pixel_format(),
            frame.layout.width() as nat,
        )[i],
    decreases count,
{
    let width = frame.layout.width() as int;
    let before = (count - 1) as nat;
    lemma_pixel_in_row(
        frame_row(frame, frame.layout.height() - count),
        frame.layout.pixel_format(),
        width as nat,
        0,
        0,
    );
    assert(count * width == before * width + width && 0 <= before * width) by (nonlinear_arith)
        requires
            count == before + 1,
            0 <= width,
    ;
    if row < before {
        lemma_row_in_file(frame, before, row, i);
    } else if before > 0 {
        lemma_row_in_file(frame, before, 0, 0);
    } else {
        assert(before * width == 0) by (nonlinear_arith)
            requires
                before == 0,
        ;
        assert(rows_upward(frame, before) =~= Seq::empty());
    }
}

/// A bitmap file holds each pixel of the frame, from the lowest row up, four bytes for each, behind
/// the header; of a frame of three bytes a pixel with the colors turned round and opaque.
#[verifier::spinoff_prover]
#[verifier::rlimit(60)]
pub proof fn law_bitmap_holds_each_pixel(frame: FrameView, x: int, y: int, part: int)
    requires
        frame.facts(),
        0 <= x < frame.layout.width(),
        0 <= y < frame.layout.height(),
        0 <= part < 4,
        54 + frame.layout.width() * frame.layout.height() * 4 <= u32::MAX,
    ensures
        ({
            let width = frame.layout.width();
            let stride = frame.layout.stride();
            let byte = bmp_image(frame)[54 + 4 * ((frame.layout.height() - 1 - y) * width + x)
                + part];
            &&& bmp_image(frame).len() == 54 + 4 * (width * frame.layout.height())
            &&& frame.layout.pixel_format() == PixelFormat::Bgra32 ==> byte == frame.data[y * stride
                + 4 * x + part]
            &&& frame.layout.pixel_format() == PixelFormat::Rgb24 && part < 3 ==> byte
                == frame.data[y * stride + 3 * x + 2 - part]
            &&& frame.layout.pixel_format() == PixelFormat::Rgb24 && part == 3 ==> byte == 255
        }),
{
    let width = frame.layout.width() as int;
    let height = frame.layout.height() as int;
    let stride = frame.layout.stride() as int;
    let row = height - 1 - y;
    let pixels = rows_upward(frame, height as nat);
    let header = bmp_header(width as nat, height as nat);
    law_bitmap_header(frame.layout.width(), frame.layout.height());
    lemma_row_in_file(frame, height as nat, row, 4 * x + part);
    assert(height * width == width * height) by (nonlinear_arith);
    let at = 4 * (row * width) + (4 * x + part);
    assert(4 * (row * width + x) + part == at);
    assert(bmp_image(frame) == header + pixels);
    assert((header + pixels)[54 + at] == pixels[at]);
    lemma_row_in_buffer(stride, y, height);
    let line = frame_row(frame, y);
    lemma_pixel_in_row(line, frame.layout.pixel_format(), width as nat, x, part);
    assert(line.len() == stride);
    if frame.layout.pixel_format() == PixelFormat::Rgb24 {
        if part < 3 {
            assert(line[3 * x + 2 - part] == frame.data[y * stride + (3 * x + 2 - part)]);
        }
    } else {
        assert(line[4 * x + part] == frame.data[y * stride + (4 * x + part)]);
    }
}

/// A bitmap can be made of every frame whose file is told in four bytes, and of no other.
pub proof fn law_small_frames_have_bitmaps(width: u32, height: u32)
    requires
        width > 0,
        height > 0,
    ensures
        bmp_failure(width, height) is None <==> 54 + 4 * (width * height) <= 0xffff_ffff,
{
    assert(width * height >= width && width * height >= height) by (nonlinear_arith)
        requires
            width > 0,
            height > 0,
    ;
    assert(width * height * 4 == 4 * (width * height)) by (nonlinear_arith);
}

} // verus!
