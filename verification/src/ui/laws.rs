//! What a viewer shows of a desktop whose changed parts it received.
use crate::desktop::dirty::{
    law_every_change_is_reported, law_reported_regions_lie_inside, pair_of, SeenFrame,
};
use crate::desktop::region::{
    all_inside, area_sum, fits_memory, law_update_carries_the_pixels, lemma_rect_rows_len, rect_rows,
    rects_pixels, region_payload, row_pixels, update_failure, update_message, wire_rect,
};
use crate::error::DcErrorView;
use crate::media::frame::{DamageRect, FrameView, PixelFormat};
use crate::media::output::lemma_row_in_buffer;
use crate::protocol::DesktopRect;
use crate::ui::picture::{
    bgra_color, frame_color, frame_pixels, in_rect, lemma_rows, number_in, painted, rows_available,
    updated, with_regions,
};
use crate::ui::preview::PreviewState;
use vstd::prelude::*;

verus! {

/// The rectangles as they go over the wire.
pub open spec fn wire_rects(rects: Seq<DamageRect>) -> Seq<DesktopRect> {
    rects.map_values(|rect: DamageRect| wire_rect(rect))
}

/// Whether one of the rectangles covers a pixel.
pub open spec fn covered(rects: Seq<DamageRect>, x: int, y: int) -> bool {
    exists|i: int| 0 <= i < rects.len() && (#[trigger] rects[i]).covers(x, y)
}

/// A picture in which the rectangles show a frame.
pub open spec fn repainted(
    pixels: Seq<u32>,
    frame: FrameView,
    rects: Seq<DamageRect>,
) -> Seq<u32> {
    let width = frame.layout.width() as int;
    Seq::new(
        pixels.len(),
        |p: int|
            if covered(rects, p % width, p / width) {
                frame_color(frame, p % width, p / width)
            } else {
                pixels[p]
            },
    )
}

/// Where the pixels of a rectangle stand among the pixels of all.
spec fn start_of(rects: Seq<DamageRect>, index: int) -> int {
    4 * (area_sum(rects.take(index)) as int)
}

/// A byte of the rows of a rectangle.
proof fn lemma_row_byte(
    frame: FrameView,
    rect: DamageRect,
    rows: nat,
    row: int,
    column: int,
    channel: int,
)
    requires
        frame.facts(),
        frame.layout.pixel_format() == PixelFormat::Bgra32,
        rect.inside(frame.layout.width(), frame.layout.height()),
        rows <= rect.height,
        0 <= row < rows,
        0 <= column < rect.width,
        0 <= channel < 4,
    ensures
        0 <= 4 * (row * rect.width + column) + channel < rect_rows(frame, rect, rows).len(),
        rect_rows(frame, rect, rows)[4 * (row * rect.width + column) + channel] == frame.data[(
        rect.y + row) * frame.layout.stride() + 4 * (rect.x + column) + channel],
    decreases rows,
{
    let before = (rows - 1) as nat;
    let width = rect.width as int;
    let stride = frame.layout.stride() as int;
    lemma_rect_rows_len(frame, rect, rows);
    lemma_rect_rows_len(frame, rect, before);
    assert(rows * width * 4 == 4 * (rows * width) && before * width * 4 == 4 * (before * width))
        by (nonlinear_arith);
    assert(0 <= row * width && row * width + width <= rows * width) by (nonlinear_arith)
        requires
            0 <= row < rows,
            0 <= width,
    ;
    if row < before {
        assert(row * width + width <= before * width) by (nonlinear_arith)
            requires
                0 <= row < before,
                0 <= width,
        ;
        lemma_row_byte(frame, rect, before, row, column, channel);
    } else {
        let y = rect.y + row;
        lemma_row_in_buffer(stride, y, frame.layout.height() as int);
        assert(y * stride == stride * y) by (nonlinear_arith);
        let pixels = row_pixels(frame, rect.x as int, y, width);
        assert(pixels[4 * column + channel] == frame.data[y * stride + 4 * rect.x + (4 * column
            + channel)]);
    }
}

/// The pixels of a rectangle among the pixels of all.
proof fn lemma_rect_bytes(frame: FrameView, rects: Seq<DamageRect>, index: int, i: int)
    requires
        frame.facts(),
        frame.layout.pixel_format() == PixelFormat::Bgra32,
        all_inside(rects, frame.layout.width(), frame.layout.height()),
        0 <= index < rects.len(),
        0 <= i < 4 * (rects[index].width * rects[index].height),
    ensures
        rects_pixels(frame, rects).len() == 4 * area_sum(rects),
        start_of(rects, index) + 4 * (rects[index].width * rects[index].height) <= rects_pixels(
            frame,
            rects,
        ).len(),
        rects_pixels(frame, rects)[start_of(rects, index) + i] == rect_rows(
            frame,
            rects[index],
            rects[index].height as nat,
        )[i],
    decreases rects.len(),
{
    let front = rects.drop_last();
    let last = rects.last();
    let n = rects.len() - 1;
    assert forall|j: int| 0 <= j < front.len() implies (#[trigger] front[j]).inside(
        frame.layout.width(),
        frame.layout.height(),
    ) by {
        assert(front[j] == rects[j]);
    }
    lemma_pixels_len(frame, front);
    assert(last.inside(frame.layout.width(), frame.layout.height())) by {
        assert(rects[n].inside(frame.layout.width(), frame.layout.height()));
    }
    lemma_rect_rows_len(frame, last, last.height as nat);
    assert(last.height * last.width * 4 == 4 * (last.width * last.height)) by (nonlinear_arith);
    assert(rects.take(n) =~= front);
    if index < n {
        lemma_rect_bytes(frame, front, index, i);
        assert(front.take(index) =~= rects.take(index));
    }
}

/// The pixels of rectangles take four bytes each.
proof fn lemma_pixels_len(frame: FrameView, rects: Seq<DamageRect>)
    requires
        frame.facts(),
        frame.layout.pixel_format() == PixelFormat::Bgra32,
        all_inside(rects, frame.layout.width(), frame.layout.height()),
    ensures
        rects_pixels(frame, rects).len() == 4 * area_sum(rects),
    decreases rects.len(),
{
    if rects.len() > 0 {
        let front = rects.drop_last();
        let last = rects.last();
        assert forall|j: int| 0 <= j < front.len() implies (#[trigger] front[j]).inside(
            frame.layout.width(),
            frame.layout.height(),
        ) by {
            assert(front[j] == rects[j]);
        }
        assert(rects[rects.len() - 1].inside(frame.layout.width(), frame.layout.height()));
        lemma_pixels_len(frame, front);
        lemma_rect_rows_len(frame, last, last.height as nat);
        assert(last.height * last.width * 4 == 4 * (last.width as nat * last.height as nat))
            by (nonlinear_arith);
    }
}

/// The color that an update holds for a pixel of one of its rectangles.
proof fn lemma_color(frame: FrameView, rects: Seq<DamageRect>, index: int, x: int, y: int)
    requires
        frame.facts(),
        frame.layout.pixel_format() == PixelFormat::Bgra32,
        all_inside(rects, frame.layout.width(), frame.layout.height()),
        0 <= index < rects.len(),
        rects[index].covers(x, y),
    ensures
        bgra_color(
            rects_pixels(frame, rects),
            start_of(rects, index) + 4 * number_in(wire_rect(rects[index]), x, y),
        ) == frame_color(frame, x, y),
{
    let rect = rects[index];
    let number = number_in(wire_rect(rect), x, y);
    let row = y - rect.y;
    let column = x - rect.x;
    assert(rect.inside(frame.layout.width(), frame.layout.height()));
    assert(0 <= row * rect.width && row * rect.width + rect.width <= rect.width * rect.height)
        by (nonlinear_arith)
        requires
            0 <= row < rect.height,
            0 <= rect.width,
    ;
    assert forall|channel: int| 0 <= channel < 4 implies rects_pixels(frame, rects)[start_of(
        rects,
        index,
    ) + 4 * number + channel] == #[trigger] frame.data[y * frame.layout.stride() + 4 * x
        + channel] by {
        lemma_rect_bytes(frame, rects, index, 4 * number + channel);
        lemma_row_byte(frame, rect, rect.height as nat, row, column, channel);
    }
    let at = y * frame.layout.stride() + 4 * x;
    assert(frame.data[at + 0] == frame.data[at]);
    assert(frame.data[at + 1] == rects_pixels(frame, rects)[start_of(rects, index) + 4 * number
        + 1]);
    assert(frame.data[at + 2] == rects_pixels(frame, rects)[start_of(rects, index) + 4 * number
        + 2]);
}

/// One more rectangle.
proof fn lemma_next_rect(
    pixels: Seq<u32>,
    frame: FrameView,
    rects: Seq<DamageRect>,
    index: int,
)
    requires
        frame.facts(),
        frame.layout.pixel_format() == PixelFormat::Bgra32,
        all_inside(rects, frame.layout.width(), frame.layout.height()),
        0 <= index < rects.len(),
    ensures
        ({
            let rect = wire_rect(rects[index]);
            let data = rects_pixels(frame, rects);
            let start = start_of(rects, index);
            &&& rows_available(rect, data, start) == rect.height
            &&& painted(
                repainted(pixels, frame, rects.take(index)),
                frame.layout.width() as int,
                rect,
                data,
                start,
                rect.height * rect.width,
            ) == repainted(pixels, frame, rects.take(index + 1))
        }),
{
    let given = rects[index];
    let rect = wire_rect(given);
    let data = rects_pixels(frame, rects);
    let start = start_of(rects, index);
    let width = frame.layout.width() as int;
    assert(given.inside(frame.layout.width(), frame.layout.height()));
    assert(given.width * given.height > 0) by (nonlinear_arith)
        requires
            given.width > 0,
            given.height > 0,
    ;
    lemma_rect_bytes(frame, rects, index, 0);
    assert(rect.height * rect.width == given.width * given.height) by (nonlinear_arith)
        requires
            rect.height == given.height,
            rect.width == given.width,
    ;
    lemma_rows(rect, data, start, rect.height as int);
    let before = rects.take(index);
    let after = rects.take(index + 1);
    let first = painted(
        repainted(pixels, frame, before),
        width,
        rect,
        data,
        start,
        rect.height * rect.width,
    );
    let second = repainted(pixels, frame, after);
    assert forall|p: int| 0 <= p < pixels.len() implies first[p] == second[p] by {
        let x = p % width;
        let y = p / width;
        if covered(before, x, y) {
            let i = choose|i: int| 0 <= i < before.len() && (#[trigger] before[i]).covers(x, y);
            assert(after[i].covers(x, y));
        }
        if in_rect(rect, x, y) {
            assert(after[index].covers(x, y));
            lemma_color(frame, rects, index, x, y);
            assert((y - rect.y) * rect.width + rect.width <= rect.height * rect.width)
                by (nonlinear_arith)
                requires
                    y - rect.y < rect.height,
                    0 <= rect.width,
            ;
        } else if covered(after, x, y) {
            let i = choose|i: int| 0 <= i < after.len() && (#[trigger] after[i]).covers(x, y);
            assert(i < index);
            assert(before[i].covers(x, y));
        }
    }
    assert(first =~= second);
}

/// The remaining rectangles.
proof fn lemma_remaining_rects(
    pixels: Seq<u32>,
    frame: FrameView,
    rects: Seq<DamageRect>,
    index: int,
)
    requires
        frame.facts(),
        frame.layout.pixel_format() == PixelFormat::Bgra32,
        all_inside(rects, frame.layout.width(), frame.layout.height()),
        0 <= index <= rects.len(),
    ensures
        with_regions(
            repainted(pixels, frame, rects.take(index)),
            frame.layout.width(),
            frame.layout.height(),
            wire_rects(rects).skip(index),
            rects_pixels(frame, rects),
            start_of(rects, index),
        ) == (
            repainted(pixels, frame, rects),
            Ok::<int, DcErrorView>(rects_pixels(frame, rects).len() as int),
        ),
    decreases rects.len() - index,
{
    let left = wire_rects(rects).skip(index);
    if index < rects.len() {
        lemma_next_rect(pixels, frame, rects, index);
        lemma_remaining_rects(pixels, frame, rects, index + 1);
        assert(left[0] == wire_rect(rects[index]));
        assert(left.drop_first() =~= wire_rects(rects).skip(index + 1));
        assert(rects.take(index + 1).drop_last() =~= rects.take(index));
        let rect = rects[index];
        assert(rect.inside(frame.layout.width(), frame.layout.height()));
        assert(rect.width as nat * rect.height as nat == rect.width * rect.height);
    } else {
        assert(rects.take(index) =~= rects);
        lemma_pixels_len(frame, rects);
    }
}

/// A picture that is painted with the pixels of an update shows the frame in the update's
/// rectangles and is unchanged elsewhere.
pub proof fn law_update_repaints_its_rectangles(
    pixels: Seq<u32>,
    frame: FrameView,
    rects: Seq<DamageRect>,
)
    requires
        frame.facts(),
        frame.layout.pixel_format() == PixelFormat::Bgra32,
        all_inside(rects, frame.layout.width(), frame.layout.height()),
    ensures
        updated(
            pixels,
            frame.layout.width(),
            frame.layout.height(),
            wire_rects(rects),
            rects_pixels(frame, rects),
        ) == (repainted(pixels, frame, rects), Ok::<(), DcErrorView>(())),
{
    lemma_remaining_rects(pixels, frame, rects, 0);
    assert(rects.take(0) =~= Seq::empty());
    assert(repainted(pixels, frame, rects.take(0)) =~= pixels);
    assert(wire_rects(rects).skip(0) =~= wire_rects(rects));
}

/// A viewer that shows a frame of the host, and receives the parts that differ in the next frame,
/// shows the next frame.
pub proof fn law_viewer_follows_the_host(shown: FrameView, frame: FrameView)
    requires
        shown.facts(),
        frame.facts(),
        shown.layout.pixel_format() == PixelFormat::Bgra32,
        frame.layout.pixel_format() == PixelFormat::Bgra32,
        SeenFrame::of(shown).comparable(frame),
    ensures
        ({
            let rects = SeenFrame::of(shown).reported(frame);
            updated(
                frame_pixels(shown),
                frame.layout.width(),
                frame.layout.height(),
                wire_rects(rects),
                rects_pixels(frame, rects),
            ) == (frame_pixels(frame), Ok::<(), DcErrorView>(()))
        }),
{
    let seen = SeenFrame::of(shown);
    let rects = seen.reported(frame);
    law_reported_regions_lie_inside(seen, frame);
    law_update_repaints_its_rectangles(frame_pixels(shown), frame, rects);
    let width = frame.layout.width() as int;
    let height = frame.layout.height() as int;
    let stride = frame.layout.stride() as int;
    let before = frame_pixels(shown);
    let after = repainted(before, frame, rects);
    assert forall|p: int| 0 <= p < before.len() implies after[p] == frame_pixels(frame)[p] by {
        let x = p % width;
        let y = p / width;
        vstd::arithmetic::div_mod::lemma_fundamental_div_mod(p, width);
        assert(0 <= y < height) by (nonlinear_arith)
            requires
                width > 0,
                0 <= p < width * height,
                p == width * y + x,
                0 <= x < width,
        ;
        if !covered(rects, x, y) {
            let pair = pair_of(seen.data, frame);
            assert forall|channel: int| 0 <= channel < 4 implies shown.data[y * stride + 4 * x
                + channel] == #[trigger] frame.data[y * stride + 4 * x + channel] by {
                if pair.differs(y, x * 4 + channel) {
                    law_every_change_is_reported(seen, frame, x, y, channel);
                }
            }
            let at = y * stride + 4 * x;
            assert(frame.data[at + 0] == frame.data[at]);
            assert(frame.data[at + 1] == shown.data[at + 1]);
            assert(frame.data[at + 2] == shown.data[at + 2]);
        }
    }
    assert(after =~= frame_pixels(frame));
}

/// The same from end to end: a window that presented a frame of the host, and is given what the
/// host's update message for the next frame holds, has the next frame as its desktop. Left out are
/// updates that the host cannot make, and those whose rectangles are too large for a receiver.
pub proof fn law_window_follows_the_host(
    window: PreviewState,
    shown: FrameView,
    frame: FrameView,
    sequence: u64,
)
    requires
        shown.facts(),
        frame.facts(),
        shown.layout.pixel_format() == PixelFormat::Bgra32,
        SeenFrame::of(shown).comparable(frame),
        ({
            let rects = SeenFrame::of(shown).reported(frame);
            &&& update_failure(frame, rects) is None
            &&& fits_memory(frame, rects)
            &&& forall|i: int|
                0 <= i < rects.len() ==> (#[trigger] rects[i]).width as nat
                    * rects[i].height as nat * 4 <= u32::MAX
        }),
    ensures
        ({
            let rects = SeenFrame::of(shown).reported(frame);
            let message = update_message(frame, rects, sequence);
            &&& region_payload(message) matches Ok(payload)
            &&& {
                let (after, outcome) = window.presenting(shown).updating(
                    frame.layout.width(),
                    frame.layout.height(),
                    message->DesktopUpdate_regions,
                    payload,
                );
                &&& outcome is Ok
                &&& after.desktop == frame_pixels(frame)
                &&& after.size == window.presenting(frame).size
            }
        }),
{
    let rects = SeenFrame::of(shown).reported(frame);
    law_update_carries_the_pixels(frame, rects, sequence);
    law_viewer_follows_the_host(shown, frame);
    assert(update_message(frame, rects, sequence)->DesktopUpdate_regions == wire_rects(rects));
}

/// A region update holds every pixel of its rectangles where the viewer looks for it: the rectangles
/// one behind the other, each row by row, four bytes for each pixel, as they stand in the frame.
pub proof fn law_update_holds_each_pixel(
    frame: FrameView,
    rects: Seq<DamageRect>,
    index: int,
    x: int,
    y: int,
    channel: int,
)
    requires
        frame.facts(),
        frame.layout.pixel_format() == PixelFormat::Bgra32,
        all_inside(rects, frame.layout.width(), frame.layout.height()),
        0 <= index < rects.len(),
        rects[index].x <= x < rects[index].x + rects[index].width,
        rects[index].y <= y < rects[index].y + rects[index].height,
        0 <= channel < 4,
    ensures
        rects_pixels(frame, rects).len() == 4 * area_sum(rects),
        rects_pixels(frame, rects)[4 * (area_sum(rects.take(index)) + (y - rects[index].y)
            * rects[index].width + (x - rects[index].x)) + channel] == frame.data[y
            * frame.layout.stride() + 4 * x + channel],
{
    let rect = rects[index];
    let row = y - rect.y;
    let column = x - rect.x;
    let number = row * rect.width + column;
    assert(rect.inside(frame.layout.width(), frame.layout.height()));
    assert(0 <= row * rect.width && row * rect.width + rect.width <= rect.width * rect.height)
        by (nonlinear_arith)
        requires
            0 <= row < rect.height,
            0 <= rect.width,
    ;
    lemma_rect_bytes(frame, rects, index, 4 * number + channel);
    lemma_row_byte(frame, rect, rect.height as nat, row, column, channel);
}

/// Behind any picture that was presented the window shows its pixels, and a region update of a later
/// frame with the same pixels outside the rectangles makes it show that frame.
pub proof fn law_update_completes_the_frame(
    shown: FrameView,
    frame: FrameView,
    rects: Seq<DamageRect>,
)
    requires
        shown.facts(),
        frame.facts(),
        shown.layout.pixel_format() == PixelFormat::Bgra32,
        frame.layout.pixel_format() == PixelFormat::Bgra32,
        shown.layout.width() == frame.layout.width(),
        shown.layout.height() == frame.layout.height(),
        all_inside(rects, frame.layout.width(), frame.layout.height()),
        forall|x: int, y: int|
            0 <= x < frame.layout.width() && 0 <= y < frame.layout.height() && !covered(rects, x, y)
                ==> #[trigger] frame_color(shown, x, y) == frame_color(frame, x, y),
    ensures
        updated(
            frame_pixels(shown),
            frame.layout.width(),
            frame.layout.height(),
            wire_rects(rects),
            rects_pixels(frame, rects),
        ) == (frame_pixels(frame), Ok::<(), DcErrorView>(())),
{
    law_update_repaints_its_rectangles(frame_pixels(shown), frame, rects);
    let width = frame.layout.width() as int;
    let height = frame.layout.height() as int;
    assert forall|p: int| 0 <= p < width * height implies repainted(
        frame_pixels(shown),
        frame,
        rects,
    )[p] == frame_pixels(frame)[p] by {
        vstd::arithmetic::div_mod::lemma_fundamental_div_mod(p, width);
        vstd::arithmetic::div_mod::lemma_mod_bound(p, width);
        let x = p % width;
        let y = p / width;
        assert(0 <= y < height) by (nonlinear_arith)
            requires
                p == width * y + x,
                0 <= x < width,
                0 <= p < width * height,
        ;
        assert(frame_pixels(shown)[p] == frame_color(shown, x, y));
    }
    assert(repainted(frame_pixels(shown), frame, rects) =~= frame_pixels(frame));
}

} // verus!
