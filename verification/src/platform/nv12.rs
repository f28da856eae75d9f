//! Conversion between BGRA pixels and NV12 planes: a plane of brightness, and behind it a plane
//! that holds two color differences for each block of four pixels.
use crate::error::{DcError, DcErrorView};
use crate::media::frame::{
    layout_failure, no_metadata, FrameLayout, FrameSize, FrameView, PixelFormat, VideoFrame,
};
use crate::media::output::lemma_row_in_buffer;
use crate::time::Duration;
use crate::ui::picture::{lemma_inside, lemma_place};
use vstd::prelude::*;

verus! {

/// A number of 256ths, cut off towards zero.
pub open spec fn whole(parts: int) -> int {
    if parts < 0 {
        -(-parts / 256)
    } else {
        parts / 256
    }
}

/// A number of 256ths as a byte: the whole part, brought between the smallest and the largest
/// byte.
pub open spec fn byte_of(parts: int) -> u8 {
    if parts < 0 {
        0
    } else if parts / 256 > 255 {
        255
    } else {
        (parts / 256) as u8
    }
}

/// The brightness of a color.
pub open spec fn luma(red: u8, green: u8, blue: u8) -> u8 {
    (whole(66 * red + 129 * green + 25 * blue + 128) + 16) as u8
}

/// How much bluer than its brightness a color is.
pub open spec fn blue_difference(red: u8, green: u8, blue: u8) -> u8 {
    (whole(-38 * red - 74 * green + 112 * blue + 128) + 128) as u8
}

/// How much redder than its brightness a color is.
pub open spec fn red_difference(red: u8, green: u8, blue: u8) -> u8 {
    (whole(112 * red - 94 * green - 18 * blue + 128) + 128) as u8
}

fn whole_part(parts: i32) -> (result: i32)
    requires
        -100_000 <= parts <= 100_000,
    ensures
        result == whole(parts as int),
{
    if parts < 0 {
        -(-parts / 256)
    } else {
        parts / 256
    }
}

/// The brightness of a color.
pub fn rgb_to_y(red: u8, green: u8, blue: u8) -> (value: u8)
    ensures
        value == luma(red, green, blue),
        16 <= value <= 235,
{
    (whole_part(66 * red as i32 + 129 * green as i32 + 25 * blue as i32 + 128) + 16) as u8
}

/// How much bluer than its brightness a color is.
pub fn rgb_to_u(red: u8, green: u8, blue: u8) -> (value: u8)
    ensures
        value == blue_difference(red, green, blue),
        16 <= value <= 240,
{
    (whole_part(-38 * red as i32 - 74 * green as i32 + 112 * blue as i32 + 128) + 128) as u8
}

/// How much redder than its brightness a color is.
pub fn rgb_to_v(red: u8, green: u8, blue: u8) -> (value: u8)
    ensures
        value == red_difference(red, green, blue),
        16 <= value <= 240,
{
    (whole_part(112 * red as i32 - 94 * green as i32 - 18 * blue as i32 + 128) + 128) as u8
}

/// Whether a frame can be converted: four bytes for each pixel, and sides of even length.
pub open spec fn convertible(layout: FrameLayout) -> bool {
    &&& layout.pixel_format() == PixelFormat::Bgra32
    &&& layout.width() % 2 == 0
    &&& layout.height() % 2 == 0
}

/// Where a pixel of a frame starts.
pub open spec fn pixel_start(frame: FrameView, x: int, y: int) -> int {
    y * frame.layout.stride() + 4 * x
}

/// The brightness of a pixel.
pub open spec fn luma_at(frame: FrameView, x: int, y: int) -> u8 {
    let at = pixel_start(frame, x, y);
    luma(frame.data[at + 2], frame.data[at + 1], frame.data[at])
}

/// A byte of the plane of color differences: those of every second pixel of every second row.
pub open spec fn chroma_at(frame: FrameView, x: int, row: int) -> u8 {
    let at = pixel_start(frame, x - x % 2, 2 * row);
    if x % 2 == 0 {
        blue_difference(frame.data[at + 2], frame.data[at + 1], frame.data[at])
    } else {
        red_difference(frame.data[at + 2], frame.data[at + 1], frame.data[at])
    }
}

/// The plane of brightness of a frame.
pub open spec fn luma_plane(frame: FrameView) -> Seq<u8> {
    let width = frame.layout.width() as int;
    Seq::new(
        (width * frame.layout.height()) as nat,
        |p: int| luma_at(frame, p % width, p / width),
    )
}

/// The plane of color differences of a frame.
pub open spec fn chroma_plane(frame: FrameView) -> Seq<u8> {
    let width = frame.layout.width() as int;
    Seq::new(
        (width * (frame.layout.height() / 2)) as nat,
        |p: int| chroma_at(frame, p % width, p / width),
    )
}

/// The planes of a frame.
pub open spec fn nv12_planes(frame: FrameView) -> Seq<u8> {
    luma_plane(frame) + chroma_plane(frame)
}

proof fn lemma_pixel_inside(frame: FrameView, x: int, y: int)
    requires
        frame.facts(),
        frame.layout.pixel_format() == PixelFormat::Bgra32,
        0 <= x < frame.layout.width(),
        0 <= y < frame.layout.height(),
    ensures
        0 <= y * frame.layout.stride(),
        pixel_start(frame, x, y) + 4 <= frame.data.len(),
{
    let stride = frame.layout.stride() as int;
    lemma_row_in_buffer(stride, y, frame.layout.height() as int);
    assert(y * stride == stride * y) by (nonlinear_arith);
    assert(0 <= y * stride) by (nonlinear_arith)
        requires
            0 <= y,
            0 <= stride,
    ;
}

fn put_luma_plane(frame: &VideoFrame, output: &mut Vec<u8>)
    requires
        convertible(frame@.layout),
        old(output)@.len() == 0,
    ensures
        final(output)@ == luma_plane(frame@),
{
    let layout = frame.layout();
    let data = frame.data();
    let held: usize = data.len();
    let size = layout.size();
    let width: usize = size.width() as usize;
    let height: usize = size.height() as usize;
    let stride: usize = layout.stride();
    let mut y: usize = 0;
    while y < height
        invariant
            y <= height,
            0 < width == frame@.layout.width(),
            height == frame@.layout.height(),
            stride == frame@.layout.stride(),
            convertible(frame@.layout),
            frame@.facts(),
            data@ == frame@.data,
            held == data@.len(),
            output@.len() == y * width,
            forall|p: int|
                0 <= p < y * width ==> #[trigger] output@[p] == luma_at(
                    frame@,
                    p % (width as int),
                    p / (width as int),
                ),
        decreases height - y,
    {
        let mut x: usize = 0;
        while x < width
            invariant
                y < height,
                x <= width,
                0 < width == frame@.layout.width(),
                height == frame@.layout.height(),
                stride == frame@.layout.stride(),
                convertible(frame@.layout),
                frame@.facts(),
                data@ == frame@.data,
                held == data@.len(),
                output@.len() == y * width + x,
                forall|p: int|
                    0 <= p < y * width + x ==> #[trigger] output@[p] == luma_at(
                        frame@,
                        p % (width as int),
                        p / (width as int),
                    ),
            decreases width - x,
        {
            proof {
                lemma_place(width as int, x as int, y as int);
                lemma_pixel_inside(frame@, x as int, y as int);
            }
            let at: usize = y * stride + 4 * x;
            output.push(rgb_to_y(data[at + 2], data[at + 1], data[at]));
            x = x + 1;
        }
        assert((y + 1) * width == y * width + width) by (nonlinear_arith);
        y = y + 1;
    }
    assert(height * width == width * height) by (nonlinear_arith);
    assert(output@ =~= luma_plane(frame@));
}

fn put_chroma_plane(frame: &VideoFrame, output: &mut Vec<u8>)
    requires
        convertible(frame@.layout),
    ensures
        final(output)@ == old(output)@ + chroma_plane(frame@),
{
    let layout = frame.layout();
    let data = frame.data();
    let held: usize = data.len();
    let size = layout.size();
    let width: usize = size.width() as usize;
    let rows: usize = size.height() as usize / 2;
    let stride: usize = layout.stride();
    let ghost before = output@;
    let mut row: usize = 0;
    while row < rows
        invariant
            row <= rows,
            0 < width == frame@.layout.width(),
            rows == frame@.layout.height() / 2,
            stride == frame@.layout.stride(),
            convertible(frame@.layout),
            frame@.facts(),
            data@ == frame@.data,
            held == data@.len(),
            output@.len() == before.len() + row * width,
            output@.take(before.len() as int) == before,
            forall|p: int|
                0 <= p < row * width ==> #[trigger] output@[before.len() + p] == chroma_at(
                    frame@,
                    p % (width as int),
                    p / (width as int),
                ),
        decreases rows - row,
    {
        let mut x: usize = 0;
        while x < width
            invariant
                row < rows,
                x <= width,
                0 < width == frame@.layout.width(),
                rows == frame@.layout.height() / 2,
                stride == frame@.layout.stride(),
                convertible(frame@.layout),
                frame@.facts(),
                data@ == frame@.data,
                held == data@.len(),
                output@.len() == before.len() + row * width + x,
                output@.take(before.len() as int) == before,
                forall|p: int|
                    0 <= p < row * width + x ==> #[trigger] output@[before.len() + p] == chroma_at(
                        frame@,
                        p % (width as int),
                        p / (width as int),
                    ),
            decreases width - x,
        {
            proof {
                lemma_place(width as int, x as int, row as int);
                lemma_pixel_inside(frame@, x - x % 2, 2 * row);
            }
            let ghost earlier = output@;
            let at: usize = 2 * row * stride + 4 * (x - x % 2);
            if x % 2 == 0 {
                output.push(rgb_to_u(data[at + 2], data[at + 1], data[at]));
            } else {
                output.push(rgb_to_v(data[at + 2], data[at + 1], data[at]));
            }
            proof {
                assert(output@.take(before.len() as int) =~= earlier.take(before.len() as int));
                assert forall|p: int|
                    0 <= p < row * width + x + 1 implies #[trigger] output@[before.len() + p]
                    == chroma_at(frame@, p % (width as int), p / (width as int)) by {
                    if p < row * width + x {
                        assert(output@[before.len() + p] == earlier[before.len() + p]);
                    }
                }
            }
            x = x + 1;
        }
        assert((row + 1) * width == row * width + width) by (nonlinear_arith);
        row = row + 1;
    }
    proof {
        assert(rows * width == width * rows) by (nonlinear_arith);
        let plane = chroma_plane(frame@);
        assert forall|i: int| 0 <= i < output@.len() implies output@[i] == (before + plane)[i] by {
            if i < before.len() {
                assert(output@.take(before.len() as int)[i] == output@[i]);
            } else {
                let p = i - before.len();
                assert(output@[before.len() + p] == plane[p]);
            }
        }
        assert(output@ =~= before + plane);
    }
}

/// The planes of a frame.
pub fn bgra_to_nv12(frame: &VideoFrame) -> (planes: Vec<u8>)
    requires
        convertible(frame@.layout),
    ensures
        planes@ == nv12_planes(frame@),
{
    let mut output: Vec<u8> = Vec::new();
    put_luma_plane(frame, &mut output);
    put_chroma_plane(frame, &mut output);
    output
}

/// The blue, green and red parts and the full opacity of a pixel of the planes.
pub open spec fn pixel_bytes(planes: Seq<u8>, width: int, height: int, x: int, y: int) -> Seq<u8> {
    let brightness = 298 * (planes[y * width + x] - 16);
    let at = width * height + (y / 2) * width + (x - x % 2);
    let u = planes[at] - 128;
    let v = planes[at + 1] - 128;
    seq![
        byte_of(brightness + 516 * u + 128),
        byte_of(brightness - 100 * u - 208 * v + 128),
        byte_of(brightness + 409 * v + 128),
        255,
    ]
}

/// The pixels that planes show, one after the other.
pub open spec fn shown_pixels(planes: Seq<u8>, width: int, height: int) -> Seq<u8> {
    Seq::new(
        (4 * (width * height)) as nat,
        |i: int|
            pixel_bytes(planes, width, height, (i / 4) % width, (i / 4) / width)[i % 4],
    )
}

/// Why planes give no frame, if they give none. A frame of such a size has to be allowed, and its
/// planes have to be complete.
pub open spec fn planes_refusal(planes: Seq<u8>, width: u32, height: u32) -> Option<DcErrorView> {
    if width * height > usize::MAX {
        Some(DcErrorView::InvalidInput("NV12 luma size overflow"@))
    } else if width * height + width * height / 2 > usize::MAX {
        Some(DcErrorView::InvalidInput("NV12 frame size overflow"@))
    } else if planes.len() < width * height + width * height / 2 {
        Some(DcErrorView::Codec("Media Foundation returned a truncated NV12 frame"@))
    } else {
        layout_failure(width, height, PixelFormat::Bgra32, 4 * width)
    }
}

/// Whether a frame shows planes.
pub open spec fn shows_planes(
    frame: FrameView,
    sequence: u64,
    timestamp: Duration,
    planes: Seq<u8>,
    width: u32,
    height: u32,
) -> bool {
    &&& frame.sequence == sequence
    &&& frame.timestamp == timestamp
    &&& frame.metadata == no_metadata()
    &&& frame.layout.pixel_format() == PixelFormat::Bgra32
    &&& frame.layout.width() == width
    &&& frame.layout.height() == height
    &&& frame.layout.stride() == 4 * width
    &&& frame.data == shown_pixels(planes, width as int, height as int)
}

fn byte_from(parts: i32) -> (byte: u8)
    ensures
        byte == byte_of(parts as int),
{
    if parts < 0 {
        0
    } else if parts / 256 > 255 {
        255
    } else {
        (parts / 256) as u8
    }
}

/// Two planes hold the bytes of a pixel.
proof fn lemma_planes_hold(width: int, height: int, x: int, y: int)
    requires
        width % 2 == 0,
        height % 2 == 0,
        0 <= x < width,
        0 <= y < height,
    ensures
        0 <= y * width + x < width * height,
        0 <= (y / 2) * width,
        width * height + (y / 2) * width + (x - x % 2) + 1 < width * height + width * height / 2,
{
    lemma_inside(width, height, x, y);
    let rows = height / 2;
    lemma_inside(width, rows, x, y / 2);
    assert(width * height == 2 * (width * rows)) by (nonlinear_arith)
        requires
            height == 2 * rows,
    ;
    let place = x - x % 2 + 1;
    lemma_inside(width, rows, place, y / 2);
    assert(0 <= (y / 2) * width) by (nonlinear_arith)
        requires
            0 <= y / 2,
            0 <= width,
    ;
}

fn put_pixels(planes: &[u8], width: usize, height: usize) -> (output: Vec<u8>)
    requires
        0 < width,
        width % 2 == 0,
        height % 2 == 0,
        width * height + width * height / 2 <= planes@.len(),
    ensures
        output@ == shown_pixels(planes@, width as int, height as int),
{
    let held: usize = planes.len();
    proof {
        assert(width * height >= 0) by (nonlinear_arith)
            requires
                width >= 0,
                height >= 0,
        ;
    }
    let luma_length: usize = width * height;
    let mut output: Vec<u8> = Vec::new();
    let mut y: usize = 0;
    while y < height
        invariant
            0 < width,
            width % 2 == 0,
            height % 2 == 0,
            held == planes@.len(),
            luma_length == width * height,
            width * height + width * height / 2 <= held,
            y <= height,
            output@.len() == 4 * (y * width),
            forall|i: int|
                0 <= i < 4 * (y * width) ==> #[trigger] output@[i] == shown_byte(
                    planes@,
                    width as int,
                    height as int,
                    i,
                ),
        decreases height - y,
    {
        let mut x: usize = 0;
        while x < width
            invariant
                0 < width,
                width % 2 == 0,
                height % 2 == 0,
                held == planes@.len(),
                luma_length == width * height,
                width * height + width * height / 2 <= held,
                y < height,
                x <= width,
                output@.len() == 4 * (y * width + x),
                forall|i: int|
                    0 <= i < 4 * (y * width + x) ==> #[trigger] output@[i] == shown_byte(
                        planes@,
                        width as int,
                        height as int,
                        i,
                    ),
            decreases width - x,
        {
            proof {
                lemma_planes_hold(width as int, height as int, x as int, y as int);
                lemma_place(width as int, x as int, y as int);
                assert(0 <= y * width) by (nonlinear_arith)
                    requires
                        0 <= y,
                        0 <= width,
                ;
            }
            let brightness: i32 = 298 * (planes[y * width + x] as i32 - 16);
            let at: usize = luma_length + (y / 2) * width + (x - x % 2);
            let u: i32 = planes[at] as i32 - 128;
            let v: i32 = planes[at + 1] as i32 - 128;
            let ghost earlier = output@;
            output.push(byte_from(brightness + 516 * u + 128));
            output.push(byte_from(brightness - 100 * u - 208 * v + 128));
            output.push(byte_from(brightness + 409 * v + 128));
            output.push(255);
            proof {
                let pixel = y * width + x;
                assert forall|i: int| 0 <= i < 4 * (pixel + 1) implies #[trigger] output@[i]
                    == shown_byte(planes@, width as int, height as int, i) by {
                    if i < 4 * pixel {
                        assert(output@[i] == earlier[i]);
                    } else {
                        assert(i / 4 == pixel);
                        assert(i % 4 == i - 4 * pixel);
                    }
                }
            }
            x = x + 1;
        }
        assert((y + 1) * width == y * width + width) by (nonlinear_arith);
        y = y + 1;
    }
    assert(height * width == width * height) by (nonlinear_arith);
    assert(output@ =~= shown_pixels(planes@, width as int, height as int));
    output
}

/// One byte of the pixels that planes show.
spec fn shown_byte(planes: Seq<u8>, width: int, height: int, i: int) -> u8 {
    pixel_bytes(planes, width, height, (i / 4) % width, (i / 4) / width)[i % 4]
}

/// The frame that planes show.
pub fn nv12_to_frame(
    sequence: u64,
    timestamp: Duration,
    width: u32,
    height: u32,
    planes: &[u8],
) -> (result: Result<VideoFrame, DcError>)
    requires
        0 < width,
        0 < height,
        width % 2 == 0,
        height % 2 == 0,
    ensures
        match result {
            Ok(frame) => planes_refusal(planes@, width, height) is None && shows_planes(
                frame@,
                sequence,
                timestamp,
                planes@,
                width,
                height,
            ),
            Err(error) => planes_refusal(planes@, width, height) == Some(error@),
        },
{
    let luma_length: usize = match (width as usize).checked_mul(height as usize) {
        Some(length) => length,
        None => return Err(DcError::invalid_input("NV12 luma size overflow")),
    };
    let required: usize = match luma_length.checked_add(luma_length / 2) {
        Some(length) => length,
        None => return Err(DcError::invalid_input("NV12 frame size overflow")),
    };
    if planes.len() < required {
        return Err(DcError::codec("Media Foundation returned a truncated NV12 frame"));
    }
    let size = FrameSize::new(width, height)?;
    let layout = FrameLayout::packed(size, PixelFormat::Bgra32)?;
    let data = put_pixels(planes, width as usize, height as usize);
    proof {
        assert(4 * width * height == 4 * (width * height)) by (nonlinear_arith);
    }
    VideoFrame::new(sequence, timestamp, layout, data)
}

/// A byte of the planes is a number of 256ths, cut off towards zero, beside a base.
pub open spec fn stands_for(byte: u8, base: int, parts: int) -> bool {
    if parts >= 0 {
        256 * (byte - base) <= parts < 256 * (byte - base) + 256
    } else {
        256 * (byte - base) - 256 < parts <= 256 * (byte - base)
    }
}

/// Every pixel keeps its own brightness and every block of four its own color: the byte of the first
/// plane at a pixel's place is the brightness of that pixel, and the two bytes of the second plane
/// at the place of a block are the color differences of the block's upper left pixel.
pub proof fn law_planes_hold_each_pixel(frame: FrameView, x: int, y: int)
    requires
        frame.facts(),
        frame.layout.pixel_format() == PixelFormat::Bgra32,
        frame.layout.width() % 2 == 0,
        frame.layout.height() % 2 == 0,
        0 <= x < frame.layout.width(),
        0 <= y < frame.layout.height(),
    ensures
        ({
            let planes = nv12_planes(frame);
            let width = frame.layout.width() as int;
            let height = frame.layout.height() as int;
            let at = y * frame.layout.stride() + 4 * x;
            let blue = frame.data[at];
            let green = frame.data[at + 1];
            let red = frame.data[at + 2];
            &&& 2 * planes.len() == 3 * (width * height)
            &&& stands_for(
                planes[y * width + x],
                16,
                66 * red + 129 * green + 25 * blue + 128,
            )
            &&& x % 2 == 0 && y % 2 == 0 ==> {
                let place = width * height + (y / 2) * width + x;
                &&& stands_for(
                    planes[place],
                    128,
                    112 * blue - 38 * red - 74 * green + 128,
                )
                &&& stands_for(
                    planes[place + 1],
                    128,
                    112 * red - 94 * green - 18 * blue + 128,
                )
            }
        }),
{
    let width = frame.layout.width() as int;
    let height = frame.layout.height() as int;
    let rows = height / 2;
    lemma_inside(width, height, x, y);
    lemma_place(width, x, y);
    assert(width * height == 2 * (width * rows)) by (nonlinear_arith)
        requires
            height == 2 * rows,
    ;
    if x % 2 == 0 && y % 2 == 0 {
        lemma_inside(width, rows, x, y / 2);
        lemma_place(width, x, y / 2);
        lemma_inside(width, rows, x + 1, y / 2);
        lemma_place(width, x + 1, y / 2);
    }
}

/// A byte that a number of 256ths is brought to: their whole part, or the nearest byte.
pub open spec fn brought_to(byte: u8, parts: int) -> bool {
    if parts < 0 {
        byte == 0
    } else if parts >= 256 * 256 {
        byte == 255
    } else {
        256 * byte <= parts < 256 * byte + 256
    }
}

/// What planes show at a pixel is made of that pixel's own brightness and of the color differences of
/// its own block: more blue with a larger first difference, more red with a larger second, less
/// green with either, and opaque.
pub proof fn law_planes_show_each_pixel(planes: Seq<u8>, width: int, height: int, x: int, y: int)
    requires
        width % 2 == 0,
        height % 2 == 0,
        0 <= x < width,
        0 <= y < height,
    ensures
        ({
            let shown = shown_pixels(planes, width, height);
            let at = 4 * (y * width + x);
            let block = width * height + (y / 2) * width + 2 * (x / 2);
            let light = 298 * (planes[y * width + x] - 16) + 128;
            let bluer = planes[block] - 128;
            let redder = planes[block + 1] - 128;
            &&& shown.len() == 4 * (width * height)
            &&& 0 <= at && at + 4 <= shown.len()
            &&& brought_to(shown[at], light + 516 * bluer)
            &&& brought_to(shown[at + 1], light - 100 * bluer - 208 * redder)
            &&& brought_to(shown[at + 2], light + 409 * redder)
            &&& shown[at + 3] == 255
        }),
{
    lemma_inside(width, height, x, y);
    lemma_place(width, x, y);
    let pixel = y * width + x;
    let at = 4 * pixel;
    assert(at / 4 == pixel && (at + 1) / 4 == pixel && (at + 2) / 4 == pixel && (at + 3) / 4
        == pixel);
    assert(at % 4 == 0 && (at + 1) % 4 == 1 && (at + 2) % 4 == 2 && (at + 3) % 4 == 3);
    assert(x - x % 2 == 2 * (x / 2));
}

/// Gray in whole numbers.
#[verifier::spinoff_prover]
proof fn lemma_gray(
    gray: u8,
    light: u8,
    bluer: u8,
    redder: u8,
    blue: u8,
    green: u8,
    red: u8,
)
    requires
        stands_for(light, 16, 66 * gray + 129 * gray + 25 * gray + 128),
        stands_for(bluer, 128, 112 * gray - 38 * gray - 74 * gray + 128),
        stands_for(redder, 128, 112 * gray - 94 * gray - 18 * gray + 128),
        brought_to(blue, 298 * (light - 16) + 128 + 516 * (bluer - 128)),
        brought_to(green, 298 * (light - 16) + 128 - 100 * (bluer - 128) - 208 * (redder - 128)),
        brought_to(red, 298 * (light - 16) + 128 + 409 * (redder - 128)),
    ensures
        gray - 2 <= blue <= gray + 2,
        gray - 2 <= green <= gray + 2,
        gray - 2 <= red <= gray + 2,
{
    assert(bluer == 128);
    assert(redder == 128);
    assert(220 * gray - 128 < 256 * (light - 16) <= 220 * gray + 128);
}

/// Whether the three colors of a pixel are the same.
pub open spec fn gray_at(frame: FrameView, x: int, y: int, gray: u8) -> bool {
    let at = y * frame.layout.stride() + 4 * x;
    &&& frame.data[at] == gray
    &&& frame.data[at + 1] == gray
    &&& frame.data[at + 2] == gray
}

#[verifier::spinoff_prover]
proof fn lemma_gray_light(frame: FrameView, x: int, y: int, gray: u8)
    requires
        frame.facts(),
        frame.layout.pixel_format() == PixelFormat::Bgra32,
        frame.layout.width() % 2 == 0,
        frame.layout.height() % 2 == 0,
        0 <= x < frame.layout.width(),
        0 <= y < frame.layout.height(),
        gray_at(frame, x, y, gray),
    ensures
        stands_for(
            nv12_planes(frame)[y * frame.layout.width() + x],
            16,
            66 * gray + 129 * gray + 25 * gray + 128,
        ),
{
    law_planes_hold_each_pixel(frame, x, y);
}

#[verifier::spinoff_prover]
proof fn lemma_gray_color(frame: FrameView, x: int, y: int, gray: u8)
    requires
        frame.facts(),
        frame.layout.pixel_format() == PixelFormat::Bgra32,
        frame.layout.width() % 2 == 0,
        frame.layout.height() % 2 == 0,
        0 <= x < frame.layout.width(),
        0 <= y < frame.layout.height(),
        x % 2 == 0,
        y % 2 == 0,
        gray_at(frame, x, y, gray),
    ensures
        ({
            let width = frame.layout.width() as int;
            let place = width * frame.layout.height() + (y / 2) * width + x;
            &&& stands_for(
                nv12_planes(frame)[place],
                128,
                112 * gray - 38 * gray - 74 * gray + 128,
            )
            &&& stands_for(
                nv12_planes(frame)[place + 1],
                128,
                112 * gray - 94 * gray - 18 * gray + 128,
            )
        }),
{
    law_planes_hold_each_pixel(frame, x, y);
}

#[verifier::spinoff_prover]
proof fn lemma_gray_shown(
    planes: Seq<u8>,
    shown: Seq<u8>,
    width: int,
    height: int,
    x: int,
    y: int,
    gray: u8,
)
    requires
        ({
            let at = 4 * (y * width + x);
            let block = width * height + (y / 2) * width + 2 * (x / 2);
            let light = 298 * (planes[y * width + x] - 16) + 128;
            let bluer = planes[block] - 128;
            let redder = planes[block + 1] - 128;
            &&& brought_to(shown[at], light + 516 * bluer)
            &&& brought_to(shown[at + 1], light - 100 * bluer - 208 * redder)
            &&& brought_to(shown[at + 2], light + 409 * redder)
            &&& stands_for(
                planes[y * width + x],
                16,
                66 * gray + 129 * gray + 25 * gray + 128,
            )
            &&& stands_for(planes[block], 128, 112 * gray - 38 * gray - 74 * gray + 128)
            &&& stands_for(planes[block + 1], 128, 112 * gray - 94 * gray - 18 * gray + 128)
        }),
    ensures
        ({
            let at = 4 * (y * width + x);
            &&& gray - 2 <= shown[at] <= gray + 2
            &&& gray - 2 <= shown[at + 1] <= gray + 2
            &&& gray - 2 <= shown[at + 2] <= gray + 2
        }),
{
    let at = 4 * (y * width + x);
    let block = width * height + (y / 2) * width + 2 * (x / 2);
    lemma_gray(
        gray,
        planes[y * width + x],
        planes[block],
        planes[block + 1],
        shown[at],
        shown[at + 1],
        shown[at + 2],
    );
}

/// Gray stays gray, and as bright as it was: a gray pixel of a block of the same gray comes back with
/// each of its parts off by two at most.
#[verifier::spinoff_prover]
#[verifier::rlimit(40)]
pub proof fn law_gray_reads_back(frame: FrameView, x: int, y: int, gray: u8)
    requires
        frame.facts(),
        frame.layout.pixel_format() == PixelFormat::Bgra32,
        frame.layout.width() % 2 == 0,
        frame.layout.height() % 2 == 0,
        0 <= x < frame.layout.width(),
        0 <= y < frame.layout.height(),
        gray_at(frame, x, y, gray),
        gray_at(frame, 2 * (x / 2), 2 * (y / 2), gray),
    ensures
        ({
            let width = frame.layout.width() as int;
            let shown = shown_pixels(nv12_planes(frame), width, frame.layout.height() as int);
            let at = 4 * (y * width + x);
            &&& gray - 2 <= shown[at] <= gray + 2
            &&& gray - 2 <= shown[at + 1] <= gray + 2
            &&& gray - 2 <= shown[at + 2] <= gray + 2
        }),
{
    let width = frame.layout.width() as int;
    let height = frame.layout.height() as int;
    let planes = nv12_planes(frame);
    let left = 2 * (x / 2);
    let top = 2 * (y / 2);
    assert(top / 2 == y / 2 && left % 2 == 0 && top % 2 == 0);
    lemma_gray_light(frame, x, y, gray);
    lemma_gray_color(frame, left, top, gray);
    law_planes_show_each_pixel(planes, width, height, x, y);
    lemma_gray_shown(planes, shown_pixels(planes, width, height), width, height, x, y, gray);
}

/// Planes are shown where there are one and a half bytes for each pixel at least, as a frame of four
/// bytes a pixel without gaps, under the number and time that they came with.
pub proof fn law_whole_planes_are_shown(
    frame: FrameView,
    sequence: u64,
    timestamp: Duration,
    planes: Seq<u8>,
    width: u32,
    height: u32,
)
    requires
        4 * width <= usize::MAX,
        4 * width * height <= usize::MAX,
        width % 2 == 0,
    ensures
        planes_refusal(planes, width, height) is None <==> 2 * planes.len() >= 3 * (width * height),
        shows_planes(frame, sequence, timestamp, planes, width, height) <==> {
            &&& frame.sequence == sequence
            &&& frame.timestamp == timestamp
            &&& frame.metadata == no_metadata()
            &&& frame.layout.pixel_format() == PixelFormat::Bgra32
            &&& frame.layout.width() == width
            &&& frame.layout.height() == height
            &&& frame.layout.stride() == 4 * width
            &&& frame.data == shown_pixels(planes, width as int, height as int)
        },
{
    let half = width as int / 2;
    assert(4 * width * height == 4 * (width * height) && width * height == 2 * (half * height))
        by (nonlinear_arith)
        requires
            width == 2 * half,
    ;
    assert(0 <= width * height) by (nonlinear_arith);
}

} // verus!
