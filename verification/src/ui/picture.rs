//! Pictures as the window takes them: one number for each pixel.
use crate::error::{DcError, DcErrorView};
use crate::media::frame::{row_bytes, FrameView, PixelFormat, VideoFrame};
use crate::media::output::lemma_row_in_buffer;
use crate::protocol::DesktopRect;
use vstd::arithmetic::div_mod::lemma_fundamental_div_mod_converse;
use vstd::prelude::*;

verus! {

/// The number of a color: red in the third byte, green in the second, blue in the first.
pub open spec fn color(red: u8, green: u8, blue: u8) -> u32 {
    (red * 0x1_0000 + green * 0x100 + blue) as u32
}

pub(crate) fn color_number(red: u8, green: u8, blue: u8) -> (number: u32)
    ensures
        number == color(red, green, blue),
{
    red as u32 * 0x1_0000 + green as u32 * 0x100 + blue as u32
}

/// The color of the four bytes blue, green, red and opacity at a position.
pub open spec fn bgra_color(data: Seq<u8>, at: int) -> u32 {
    color(data[at + 2], data[at + 1], data[at])
}

/// The color of the three bytes red, green and blue at a position.
pub open spec fn rgb_color(data: Seq<u8>, at: int) -> u32 {
    color(data[at], data[at + 1], data[at + 2])
}

/// The color of a pixel of a frame.
pub open spec fn frame_color(frame: FrameView, x: int, y: int) -> u32 {
    if frame.layout.pixel_format() == PixelFormat::Rgb24 {
        rgb_color(frame.data, y * frame.layout.stride() + 3 * x)
    } else {
        bgra_color(frame.data, y * frame.layout.stride() + 4 * x)
    }
}

/// The pixels of a frame, row by row.
pub open spec fn frame_pixels(frame: FrameView) -> Seq<u32> {
    let width = frame.layout.width() as int;
    Seq::new(
        (width * frame.layout.height()) as nat,
        |p: int| frame_color(frame, p % width, p / width),
    )
}

/// The position in a row-by-row picture gives back its column and row.
pub(crate) proof fn lemma_place(width: int, x: int, y: int)
    requires
        0 <= x < width,
    ensures
        (y * width + x) % width == x,
        (y * width + x) / width == y,
{
    lemma_fundamental_div_mod_converse(y * width + x, width, y, x);
}

/// A position inside a picture.
pub(crate) proof fn lemma_inside(width: int, height: int, x: int, y: int)
    requires
        0 <= x < width,
        0 <= y < height,
    ensures
        0 <= y * width + x < width * height,
{
    assert(y * width + width <= width * height && 0 <= y * width) by (nonlinear_arith)
        requires
            0 <= y < height,
            0 <= width,
    ;
}

/// Replaces a picture by the pixels of a frame.
pub fn convert_to_minifb(frame: &VideoFrame, output: &mut Vec<u32>) -> (result: Result<(), DcError>)
    ensures
        result is Ok,
        final(output)@ == frame_pixels(frame@),
{
    let layout = frame.layout();
    let data = frame.data();
    let size = layout.size();
    let width: usize = size.width() as usize;
    let height: usize = size.height() as usize;
    let stride: usize = layout.stride();
    let rgb = layout.pixel_format() == PixelFormat::Rgb24;
    output.clear();
    let mut y: usize = 0;
    while y < height
        invariant
            y <= height,
            0 < width == frame@.layout.width(),
            height == frame@.layout.height(),
            stride == frame@.layout.stride(),
            rgb == (frame@.layout.pixel_format() == PixelFormat::Rgb24),
            frame@.facts(),
            data@ == frame@.data,
            data@.len() == stride * height,
            data@.len() <= usize::MAX,
            output@.len() == y * width,
            forall|p: int|
                0 <= p < y * width ==> #[trigger] output@[p] == frame_color(
                    frame@,
                    p % (width as int),
                    p / (width as int),
                ),
        decreases height - y,
    {
        proof {
            lemma_row_in_buffer(stride as int, y as int, height as int);
            assert(y * stride == stride * y) by (nonlinear_arith);
        }
        let row: usize = y * stride;
        let mut x: usize = 0;
        while x < width
            invariant
                y < height,
                x <= width,
                0 < width == frame@.layout.width(),
                stride == frame@.layout.stride(),
                rgb == (frame@.layout.pixel_format() == PixelFormat::Rgb24),
                frame@.facts(),
                data@ == frame@.data,
                row == y * stride,
                row + stride <= data@.len() <= usize::MAX,
                output@.len() == y * width + x,
                forall|p: int|
                    0 <= p < y * width + x ==> #[trigger] output@[p] == frame_color(
                        frame@,
                        p % (width as int),
                        p / (width as int),
                    ),
            decreases width - x,
        {
            proof {
                lemma_place(width as int, x as int, y as int);
            }
            if rgb {
                let at: usize = row + 3 * x;
                output.push(color_number(data[at], data[at + 1], data[at + 2]));
            } else {
                let at: usize = row + 4 * x;
                output.push(color_number(data[at + 2], data[at + 1], data[at]));
            }
            x = x + 1;
        }
        assert((y + 1) * width == y * width + width) by (nonlinear_arith);
        y = y + 1;
    }
    assert(height * width == width * height) by (nonlinear_arith);
    assert(output@ =~= frame_pixels(frame@));
    Ok(())
}

/// Whether a rectangle is not empty and lies inside a desktop.
pub open spec fn on_desktop(rect: DesktopRect, width: u32, height: u32) -> bool {
    &&& rect.width > 0
    &&& rect.height > 0
    &&& rect.x + rect.width <= width
    &&& rect.y + rect.height <= height
}

/// Whether a pixel lies in a rectangle.
pub open spec fn in_rect(rect: DesktopRect, x: int, y: int) -> bool {
    &&& rect.x <= x < rect.x + rect.width
    &&& rect.y <= y < rect.y + rect.height
}

/// The number of a pixel inside a rectangle, row by row.
pub open spec fn number_in(rect: DesktopRect, x: int, y: int) -> int {
    (y - rect.y) * rect.width + (x - rect.x)
}

/// A picture in which the first `count` pixels of a rectangle have the colors of the bytes from a
/// position on; all other pixels stay.
pub open spec fn painted(
    pixels: Seq<u32>,
    width: int,
    rect: DesktopRect,
    data: Seq<u8>,
    offset: int,
    count: int,
) -> Seq<u32> {
    Seq::new(
        pixels.len(),
        |p: int|
            {
                let x = p % width;
                let y = p / width;
                if in_rect(rect, x, y) && number_in(rect, x, y) < count {
                    bgra_color(data, offset + 4 * number_in(rect, x, y))
                } else {
                    pixels[p]
                }
            },
    )
}

/// How many rows of a rectangle the bytes from a position on suffice for.
pub open spec fn rows_available(rect: DesktopRect, data: Seq<u8>, offset: int) -> int {
    let rows = (data.len() - offset) / (4 * rect.width);
    if rows < rect.height {
        rows
    } else {
        rect.height as int
    }
}

/// A picture after regions were painted one after the other with the bytes from a position on,
/// and the position behind the bytes that were used, or the failure that ended it. The rows before
/// a failure are painted.
pub open spec fn with_regions(
    pixels: Seq<u32>,
    width: u32,
    height: u32,
    regions: Seq<DesktopRect>,
    data: Seq<u8>,
    offset: int,
) -> (Seq<u32>, Result<int, DcErrorView>)
    decreases regions.len(),
{
    if regions.len() == 0 {
        (pixels, Ok(offset))
    } else {
        let rect = regions[0];
        let rows = rows_available(rect, data, offset);
        let after = painted(pixels, width as int, rect, data, offset, rows * rect.width);
        if !on_desktop(rect, width, height) {
            (pixels, Err(DcErrorView::Codec("desktop update region is outside the frame"@)))
        } else if rows < rect.height {
            (after, Err(DcErrorView::Codec("desktop update payload is truncated"@)))
        } else {
            with_regions(
                after,
                width,
                height,
                regions.drop_first(),
                data,
                offset + 4 * (rect.width * rect.height),
            )
        }
    }
}

/// A picture after a region update, and whether the update was complete: all of its bytes have to
/// be used.
pub open spec fn updated(
    pixels: Seq<u32>,
    width: u32,
    height: u32,
    regions: Seq<DesktopRect>,
    data: Seq<u8>,
) -> (Seq<u32>, Result<(), DcErrorView>) {
    let (after, outcome) = with_regions(pixels, width, height, regions, data, 0);
    match outcome {
        Err(error) => (after, Err(error)),
        Ok(end) => if end != data.len() {
            (after, Err(DcErrorView::Codec("desktop update payload has trailing bytes"@)))
        } else {
            (after, Ok(()))
        },
    }
}

/// One more pixel of a rectangle.
proof fn lemma_next_pixel(
    pixels: Seq<u32>,
    width: u32,
    height: u32,
    rect: DesktopRect,
    data: Seq<u8>,
    offset: int,
    row: int,
    column: int,
)
    requires
        on_desktop(rect, width, height),
        pixels.len() == width * height,
        0 <= row < rect.height,
        0 <= column < rect.width,
    ensures
        ({
            let count = row * rect.width + column;
            let at = (rect.y + row) * width + rect.x + column;
            &&& 0 <= at < pixels.len()
            &&& painted(pixels, width as int, rect, data, offset, count + 1) == painted(
                pixels,
                width as int,
                rect,
                data,
                offset,
                count,
            ).update(at, bgra_color(data, offset + 4 * count))
        }),
{
    let count = row * rect.width + column;
    let x = rect.x + column;
    let y = rect.y + row;
    let at = y * width + x;
    lemma_place(width as int, x, y);
    lemma_inside(width as int, height as int, x, y);
    let before = painted(pixels, width as int, rect, data, offset, count);
    let after = painted(pixels, width as int, rect, data, offset, count + 1);
    assert forall|p: int| 0 <= p < pixels.len() implies after[p] == before.update(
        at,
        bgra_color(data, offset + 4 * count),
    )[p] by {
        let px = p % (width as int);
        let py = p / (width as int);
        if in_rect(rect, px, py) && number_in(rect, px, py) == count {
            lemma_fundamental_div_mod_converse(
                count,
                rect.width as int,
                py - rect.y,
                px - rect.x,
            );
            lemma_fundamental_div_mod_converse(count, rect.width as int, row, column);
            assert(py == y && px == x);
            vstd::arithmetic::div_mod::lemma_fundamental_div_mod(p, width as int);
            assert(width * py == py * width) by (nonlinear_arith);
            assert(p == at);
        }
        if p == at {
            assert(px == x && py == y);
            assert(number_in(rect, px, py) == count);
        }
    }
    assert(after =~= before.update(at, bgra_color(data, offset + 4 * count)));
}

/// Nothing of a rectangle painted.
proof fn lemma_nothing_painted(
    pixels: Seq<u32>,
    width: u32,
    rect: DesktopRect,
    data: Seq<u8>,
    offset: int,
)
    ensures
        painted(pixels, width as int, rect, data, offset, 0) == pixels,
{
    assert forall|p: int| 0 <= p < pixels.len() implies painted(
        pixels,
        width as int,
        rect,
        data,
        offset,
        0,
    )[p] == pixels[p] by {
        let x = p % (width as int);
        let y = p / (width as int);
        if in_rect(rect, x, y) {
            assert((y - rect.y) * rect.width >= 0) by (nonlinear_arith)
                requires
                    y >= rect.y,
                    rect.width >= 0,
            ;
        }
    }
    assert(painted(pixels, width as int, rect, data, offset, 0) =~= pixels);
}

/// Paints a rectangle; tells whether the bytes sufficed.
fn paint_region(
    pixels: &mut Vec<u32>,
    width: u32,
    height: u32,
    rect: &DesktopRect,
    data: &[u8],
    offset: usize,
) -> (complete: bool)
    requires
        on_desktop(*rect, width, height),
        old(pixels)@.len() == width * height,
        offset <= data@.len(),
    ensures
        final(pixels)@ == painted(
            old(pixels)@,
            width as int,
            *rect,
            data@,
            offset as int,
            rows_available(*rect, data@, offset as int) * rect.width,
        ),
        complete == (rows_available(*rect, data@, offset as int) == rect.height),
        complete ==> offset + 4 * (rect.width * rect.height) <= data@.len(),
{
    let available: usize = data.len();
    let ghost before = pixels@;
    let ghost start = offset as int;
    let row_bytes: u64 = rect.width as u64 * 4;
    let held: usize = pixels.len();
    let mut position: usize = offset;
    let mut row: u32 = 0;
    proof {
        lemma_nothing_painted(before, width, *rect, data@, start);
        assert(0 * rect.width == 0);
    }
    while row < rect.height
        invariant
            on_desktop(*rect, width, height),
            before == old(pixels)@,
            start == offset,
            held == before.len() == width * height,
            pixels@.len() == held,
            available == data@.len(),
            row_bytes == 4 * rect.width,
            row <= rect.height,
            0 <= start <= position <= available,
            position == start + 4 * (row * rect.width),
            pixels@ == painted(
                before,
                width as int,
                *rect,
                data@,
                start,
                row * rect.width,
            ),
        decreases rect.height - row,
    {
        if ((available - position) as u64) < row_bytes {
            proof {
                lemma_rows(*rect, data@, start, row as int);
            }
            return false;
        }
        let mut column: u32 = 0;
        while column < rect.width
            invariant
                on_desktop(*rect, width, height),
                held == before.len() == width * height,
                pixels@.len() == held,
                available == data@.len(),
                row < rect.height,
                column <= rect.width,
                0 <= start,
                position == start + 4 * (row * rect.width + column),
                position + 4 * (rect.width - column) <= available,
                pixels@ == painted(
                    before,
                    width as int,
                    *rect,
                    data@,
                    start,
                    row * rect.width + column,
                ),
            decreases rect.width - column,
        {
            proof {
                lemma_next_pixel(
                    before,
                    width,
                    height,
                    *rect,
                    data@,
                    start,
                    row as int,
                    column as int,
                );
                lemma_inside(width as int, height as int, rect.x + column, rect.y + row);
                assert((rect.y + row) * width >= 0) by (nonlinear_arith)
                    requires
                        rect.y + row >= 0,
                        width >= 0,
                ;
            }
            let at: usize = (rect.y + row) as usize * width as usize + (rect.x + column) as usize;
            pixels.set(at, color_number(data[position + 2], data[position + 1], data[position]));
            position = position + 4;
            column = column + 1;
        }
        assert((row + 1) * rect.width == row * rect.width + rect.width) by (nonlinear_arith);
        row = row + 1;
    }
    proof {
        lemma_rows(*rect, data@, start, row as int);
        assert(rect.height * rect.width == rect.width * rect.height) by (nonlinear_arith);
    }
    true
}

/// How many rows are available, from how many could be painted.
pub(crate) proof fn lemma_rows(rect: DesktopRect, data: Seq<u8>, offset: int, rows: int)
    requires
        rect.width > 0,
        0 <= rows <= rect.height,
        0 <= offset <= data.len(),
        offset + 4 * (rows * rect.width) <= data.len(),
        rows < rect.height ==> data.len() - (offset + 4 * (rows * rect.width)) < 4 * rect.width,
    ensures
        rows_available(rect, data, offset) == rows,
{
    let step = 4 * rect.width;
    let left = data.len() - offset;
    assert(4 * (rows * rect.width) == rows * step) by (nonlinear_arith)
        requires
            step == 4 * rect.width,
    ;
    if rows < rect.height {
        lemma_fundamental_div_mod_converse(left, step, rows, left - rows * step);
    } else {
        assert(left / step >= rows) by (nonlinear_arith)
            requires
                left >= rows * step,
                step > 0,
        ;
    }
}

/// Paints the regions of an update.
pub fn apply_regions(
    pixels: &mut Vec<u32>,
    width: u32,
    height: u32,
    regions: &[DesktopRect],
    data: &[u8],
) -> (result: Result<(), DcError>)
    requires
        old(pixels)@.len() == width * height,
    ensures
        final(pixels)@ == updated(old(pixels)@, width, height, regions@, data@).0,
        final(pixels)@.len() == old(pixels)@.len(),
        match result {
            Ok(_) => updated(old(pixels)@, width, height, regions@, data@).1 is Ok,
            Err(error) => updated(old(pixels)@, width, height, regions@, data@).1 == Err::<
                (),
                DcErrorView,
            >(error@),
        },
{
    let ghost before = pixels@;
    let available: usize = data.len();
    let mut offset: usize = 0;
    let mut index: usize = 0;
    assert(regions@.skip(0) =~= regions@);
    while index < regions.len()
        invariant
            index <= regions@.len(),
            offset <= available == data@.len(),
            before == old(pixels)@,
            before.len() == width * height,
            pixels@.len() == before.len(),
            with_regions(before, width, height, regions@, data@, 0) == with_regions(
                pixels@,
                width,
                height,
                regions@.skip(index as int),
                data@,
                offset as int,
            ),
        decreases regions@.len() - index,
    {
        let rect = regions[index];
        assert(regions@.skip(index as int)[0] == rect);
        assert(regions@.skip(index as int).drop_first() =~= regions@.skip(index + 1));
        if rect.width == 0 || rect.height == 0 || rect.width > width || rect.x > width - rect.width
            || rect.height > height || rect.y > height - rect.height {
            return Err(DcError::codec("desktop update region is outside the frame"));
        }
        if !paint_region(pixels, width, height, &rect, data, offset) {
            return Err(DcError::codec("desktop update payload is truncated"));
        }
        proof {
            assert(rect.width * rect.height >= 0) by (nonlinear_arith)
                requires
                    rect.width >= 0,
                    rect.height >= 0,
            ;
            assert(rect.width * rect.height <= 0xffff_ffff * 0xffff_ffff) by (nonlinear_arith)
                requires
                    0 <= rect.width <= 0xffff_ffff,
                    0 <= rect.height <= 0xffff_ffff,
            ;
        }
        offset = (offset as u128 + 4 * (rect.width as u128 * rect.height as u128)) as usize;
        index = index + 1;
    }
    assert(regions@.skip(index as int) =~= Seq::empty());
    if offset != available {
        return Err(DcError::codec("desktop update payload has trailing bytes"));
    }
    Ok(())
}

proof fn lemma_untouched(
    pixels: Seq<u32>,
    width: u32,
    height: u32,
    regions: Seq<DesktopRect>,
    data: Seq<u8>,
    offset: int,
    p: int,
)
    requires
        0 <= p < pixels.len(),
        forall|i: int|
            0 <= i < regions.len() ==> !in_rect(
                #[trigger] regions[i],
                p % (width as int),
                p / (width as int),
            ),
    ensures
        with_regions(pixels, width, height, regions, data, offset).0.len() == pixels.len(),
        with_regions(pixels, width, height, regions, data, offset).0[p] == pixels[p],
    decreases regions.len(),
{
    if regions.len() > 0 {
        let rect = regions[0];
        let rows = rows_available(rect, data, offset);
        let after = painted(pixels, width as int, rect, data, offset, rows * rect.width);
        assert(!in_rect(regions[0], p % (width as int), p / (width as int)));
        assert(after[p] == pixels[p]);
        let rest = regions.drop_first();
        assert forall|i: int| 0 <= i < rest.len() implies !in_rect(
            #[trigger] rest[i],
            p % (width as int),
            p / (width as int),
        ) by {
            assert(rest[i] == regions[i + 1]);
        }
        lemma_untouched(
            after,
            width,
            height,
            rest,
            data,
            offset + 4 * (rect.width * rect.height),
            p,
        );
    }
}

/// A region update leaves every pixel outside its regions as it was.
pub proof fn law_other_pixels_stay(
    pixels: Seq<u32>,
    width: u32,
    height: u32,
    regions: Seq<DesktopRect>,
    data: Seq<u8>,
    p: int,
)
    requires
        0 <= p < pixels.len(),
        forall|i: int|
            0 <= i < regions.len() ==> !in_rect(
                #[trigger] regions[i],
                p % (width as int),
                p / (width as int),
            ),
    ensures
        updated(pixels, width, height, regions, data).0[p] == pixels[p],
{
    lemma_untouched(pixels, width, height, regions, data, 0, p);
}

/// The window's picture of a frame shows each of its pixels in its place: the red, the green and the
/// blue of the frame's bytes, row by row.
pub proof fn law_picture_shows_each_pixel(frame: FrameView, x: int, y: int)
    requires
        0 <= x < frame.layout.width(),
        0 <= y < frame.layout.height(),
    ensures
        ({
            let number = frame_pixels(frame)[y * frame.layout.width() + x];
            let stride = frame.layout.stride();
            &&& frame_pixels(frame).len() == frame.layout.width() * frame.layout.height()
            &&& frame.layout.pixel_format() == PixelFormat::Bgra32 ==> number == 0x1_0000
                * frame.data[y * stride + 4 * x + 2] + 0x100 * frame.data[y * stride + 4 * x + 1]
                + frame.data[y * stride + 4 * x]
            &&& frame.layout.pixel_format() == PixelFormat::Rgb24 ==> number == 0x1_0000
                * frame.data[y * stride + 3 * x] + 0x100 * frame.data[y * stride + 3 * x + 1]
                + frame.data[y * stride + 3 * x + 2]
        }),
{
    lemma_place(frame.layout.width() as int, x, y);
    lemma_inside(frame.layout.width() as int, frame.layout.height() as int, x, y);
}

/// The bytes of the pixels of rectangles.
pub open spec fn bytes_of(regions: Seq<DesktopRect>) -> int
    decreases regions.len(),
{
    if regions.len() == 0 {
        0
    } else {
        4 * (regions[0].width * regions[0].height) + bytes_of(regions.drop_first())
    }
}

proof fn lemma_regions_taken(
    pixels: Seq<u32>,
    width: u32,
    height: u32,
    regions: Seq<DesktopRect>,
    data: Seq<u8>,
    offset: int,
)
    requires
        0 <= offset <= data.len(),
    ensures
        bytes_of(regions) >= 0,
        ({
            let outcome = with_regions(pixels, width, height, regions, data, offset).1;
            &&& outcome is Ok ==> outcome->Ok_0 == offset + bytes_of(regions)
            &&& outcome is Ok <==> offset + bytes_of(regions) <= data.len() && forall|i: int|
                0 <= i < regions.len() ==> {
                    &&& (#[trigger] regions[i]).width > 0
                    &&& regions[i].height > 0
                    &&& regions[i].x + regions[i].width <= width
                    &&& regions[i].y + regions[i].height <= height
                }
        }),
    decreases regions.len(),
{
    if regions.len() > 0 {
        let rect = regions[0];
        let rest = regions.drop_first();
        let rows = rows_available(rect, data, offset);
        let after = painted(pixels, width as int, rect, data, offset, rows * rect.width);
        assert(0 <= rect.width * rect.height) by (nonlinear_arith)
            requires
                0 <= rect.width,
                0 <= rect.height,
        ;
        lemma_regions_taken(pixels, width, height, rest, data, offset);
        if on_desktop(rect, width, height) {
            let left = data.len() - offset;
            let step = 4 * rect.width;
            assert(left / step >= rect.height <==> 4 * (rect.width * rect.height) <= left)
                by (nonlinear_arith)
                requires
                    step == 4 * rect.width,
                    rect.width > 0,
                    rect.height > 0,
                    left >= 0,
            ;
            if rows >= rect.height {
                lemma_regions_taken(
                    after,
                    width,
                    height,
                    rest,
                    data,
                    offset + 4 * (rect.width * rect.height),
                );
                assert forall|i: int| 0 <= i < rest.len() implies #[trigger] rest[i] == regions[i
                    + 1] by {}
            }
        }
        if forall|i: int|
            0 <= i < regions.len() ==> {
                &&& (#[trigger] regions[i]).width > 0
                &&& regions[i].height > 0
                &&& regions[i].x + regions[i].width <= width
                &&& regions[i].y + regions[i].height <= height
            } {
            assert(regions[0].width > 0);
            assert forall|i: int| 0 <= i < rest.len() implies {
                &&& (#[trigger] rest[i]).width > 0
                &&& rest[i].height > 0
                &&& rest[i].x + rest[i].width <= width
                &&& rest[i].y + rest[i].height <= height
            } by {
                assert(rest[i] == regions[i + 1]);
            }
        }
        if with_regions(pixels, width, height, regions, data, offset).1 is Ok {
            assert forall|i: int| 0 <= i < regions.len() implies {
                &&& (#[trigger] regions[i]).width > 0
                &&& regions[i].height > 0
                &&& regions[i].x + regions[i].width <= width
                &&& regions[i].y + regions[i].height <= height
            } by {
                if i > 0 {
                    assert(rest[i - 1] == regions[i]);
                }
            }
        }
    }
}

/// An update is taken exactly where all its rectangles lie on the desktop and its data holds four
/// bytes for each of their pixels, neither more nor less.
pub proof fn law_update_takes_its_bytes(
    pixels: Seq<u32>,
    width: u32,
    height: u32,
    regions: Seq<DesktopRect>,
    data: Seq<u8>,
)
    ensures
        updated(pixels, width, height, regions, data).1 is Ok <==> data.len() == bytes_of(regions)
            && forall|i: int|
            0 <= i < regions.len() ==> {
                &&& (#[trigger] regions[i]).width > 0
                &&& regions[i].height > 0
                &&& regions[i].x + regions[i].width <= width
                &&& regions[i].y + regions[i].height <= height
            },
{
    lemma_regions_taken(pixels, width, height, regions, data, 0);
}

/// One rectangle is painted with its own bytes, row by row, whatever stood there.
pub proof fn law_rectangle_is_painted(
    pixels: Seq<u32>,
    width: u32,
    height: u32,
    rect: DesktopRect,
    data: Seq<u8>,
    x: int,
    y: int,
)
    requires
        pixels.len() == width * height,
        data.len() == 4 * (rect.width * rect.height),
        rect.width > 0,
        rect.height > 0,
        rect.x + rect.width <= width,
        rect.y + rect.height <= height,
        0 <= x < width,
        0 <= y < height,
    ensures
        ({
            let (after, outcome) = updated(pixels, width, height, seq![rect], data);
            let at = 4 * ((y - rect.y) * rect.width + (x - rect.x));
            &&& outcome is Ok
            &&& after[y * width + x] == (if rect.x <= x < rect.x + rect.width && rect.y <= y < rect.y
                + rect.height {
                (0x1_0000 * data[at + 2] + 0x100 * data[at + 1] + data[at]) as u32
            } else {
                pixels[y * width + x]
            })
        }),
{
    let regions = seq![rect];
    reveal_with_fuel(with_regions, 2);
    assert(regions.drop_first().len() == 0);
    assert(rect.height * rect.width == rect.width * rect.height) by (nonlinear_arith);
    lemma_rows(rect, data, 0, rect.height as int);
    lemma_place(width as int, x, y);
    lemma_inside(width as int, height as int, x, y);
    if rect.x <= x < rect.x + rect.width && rect.y <= y < rect.y + rect.height {
        lemma_inside(rect.width as int, rect.height as int, x - rect.x, y - rect.y);
    }
}

} // verus!
