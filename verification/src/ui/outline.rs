//! Outlines of updated regions, laid over the desktop to make updates visible.
use crate::protocol::DesktopRect;
use crate::ui::picture::{in_rect, lemma_inside};
use vstd::arithmetic::div_mod::{lemma_fundamental_div_mod, lemma_fundamental_div_mod_converse};
use vstd::prelude::*;

verus! {

/// Bright green.
pub const OUTLINE_COLOR: u32 = 0x0000_ff00;

/// Whether a rectangle is not empty and lies inside a picture.
pub open spec fn inside_picture(rect: DesktopRect, width: int, height: int) -> bool {
    &&& rect.width > 0
    &&& rect.height > 0
    &&& rect.x + rect.width <= width
    &&& rect.y + rect.height <= height
}

/// Whether a pixel lies on the border of a rectangle, one pixel wide.
pub open spec fn on_outline(rect: DesktopRect, x: int, y: int) -> bool {
    &&& in_rect(rect, x, y)
    &&& x == rect.x || x == rect.x + rect.width - 1 || y == rect.y || y == rect.y + rect.height - 1
}

/// Whether a pixel lies on the border of one of the rectangles.
pub open spec fn on_some_outline(regions: Seq<DesktopRect>, x: int, y: int) -> bool {
    exists|i: int| 0 <= i < regions.len() && on_outline(#[trigger] regions[i], x, y)
}

/// A picture with the outlines of rectangles laid over it.
pub open spec fn with_outlines(
    desktop: Seq<u32>,
    width: int,
    regions: Seq<DesktopRect>,
) -> Seq<u32> {
    Seq::new(
        desktop.len(),
        |p: int|
            if on_some_outline(regions, p % width, p / width) {
                OUTLINE_COLOR
            } else {
                desktop[p]
            },
    )
}

/// The picture in which the outline of one rectangle is drawn above a row.
spec fn outlined_above(desktop: Seq<u32>, width: int, rect: DesktopRect, row: int) -> Seq<u32> {
    Seq::new(
        desktop.len(),
        |p: int|
            if on_outline(rect, p % width, p / width) && p / width < row {
                OUTLINE_COLOR
            } else {
                desktop[p]
            },
    )
}

fn fill_line(pixels: &mut Vec<u32>, from: usize, to: usize)
    requires
        from <= to <= old(pixels)@.len(),
    ensures
        final(pixels)@ == Seq::new(
            old(pixels)@.len(),
            |p: int|
                if from <= p < to {
                    OUTLINE_COLOR
                } else {
                    old(pixels)@[p]
                },
        ),
{
    let ghost before = pixels@;
    let mut at: usize = from;
    while at < to
        invariant
            from <= at <= to <= before.len(),
            pixels@ == Seq::new(
                before.len(),
                |p: int|
                    if from <= p < at {
                        OUTLINE_COLOR
                    } else {
                        before[p]
                    },
            ),
        decreases to - at,
    {
        pixels.set(at, OUTLINE_COLOR);
        at = at + 1;
        assert(pixels@ =~= Seq::new(
            before.len(),
            |p: int|
                if from <= p < at {
                    OUTLINE_COLOR
                } else {
                    before[p]
                },
        ));
    }
    assert(pixels@ =~= Seq::new(
        before.len(),
        |p: int|
            if from <= p < to {
                OUTLINE_COLOR
            } else {
                before[p]
            },
    ));
}

fn draw_outline(pixels: &mut Vec<u32>, width: usize, height: usize, rect: &DesktopRect)
    requires
        inside_picture(*rect, width as int, height as int),
        old(pixels)@.len() == width * height,
    ensures
        final(pixels)@ == with_outlines(old(pixels)@, width as int, seq![*rect]),
{
    let ghost before = pixels@;
    let held: usize = pixels.len();
    let left: usize = rect.x as usize;
    let across: usize = rect.width as usize;
    let first: usize = rect.y as usize;
    let down: usize = rect.height as usize;
    let end: usize = first + down;
    let mut row: usize = first;
    assert(pixels@ =~= outlined_above(before, width as int, *rect, row as int));
    while row < end
        invariant
            inside_picture(*rect, width as int, height as int),
            held == before.len() == width * height,
            pixels@.len() == held,
            left == rect.x,
            across == rect.width,
            first == rect.y,
            down == rect.height,
            end == first + down,
            first <= row <= end,
            pixels@ == outlined_above(before, width as int, *rect, row as int),
        decreases end - row,
    {
        proof {
            lemma_inside(width as int, height as int, left as int, row as int);
            lemma_inside(width as int, height as int, left + across - 1, row as int);
            assert(row * width >= 0) by (nonlinear_arith)
                requires
                    row >= 0,
                    width >= 0,
            ;
        }
        let start: usize = row * width + left;
        let ghost above = pixels@;
        if row == first || row == end - 1 {
            fill_line(pixels, start, start + across);
        } else {
            pixels.set(start, OUTLINE_COLOR);
            pixels.set(start + (across - 1), OUTLINE_COLOR);
        }
        proof {
            let after = outlined_above(before, width as int, *rect, row + 1);
            assert forall|p: int| 0 <= p < before.len() implies pixels@[p] == after[p] by {
                let x = p % (width as int);
                let y = p / (width as int);
                lemma_fundamental_div_mod(p, width as int);
                assert(width * y == y * width) by (nonlinear_arith);
                assert(above[p] == (if on_outline(*rect, x, y) && y < row {
                    OUTLINE_COLOR
                } else {
                    before[p]
                }));
                if y == row {
                    assert(p == row * width + x);
                } else {
                    assert(!(row * width <= p < row * width + width)) by {
                        if row * width <= p < row * width + width {
                            lemma_fundamental_div_mod_converse(
                                p,
                                width as int,
                                row as int,
                                p - row * width,
                            );
                        }
                    }
                }
            }
            assert(pixels@ =~= after);
        }
        row = row + 1;
    }
    proof {
        let whole = with_outlines(before, width as int, seq![*rect]);
        assert forall|p: int| 0 <= p < before.len() implies pixels@[p] == whole[p] by {
            let x = p % (width as int);
            let y = p / (width as int);
            if on_outline(*rect, x, y) {
                assert(on_outline(seq![*rect][0], x, y));
            }
        }
        assert(pixels@ =~= whole);
    }
}

/// Draws the outlines of rectangles over a picture.
pub fn draw_outlines(pixels: &mut Vec<u32>, width: usize, height: usize, regions: &[DesktopRect])
    requires
        old(pixels)@.len() == width * height,
        forall|i: int|
            0 <= i < regions@.len() ==> inside_picture(
                #[trigger] regions@[i],
                width as int,
                height as int,
            ),
    ensures
        final(pixels)@ == with_outlines(old(pixels)@, width as int, regions@),
{
    let ghost before = pixels@;
    let mut index: usize = 0;
    assert(pixels@ =~= with_outlines(before, width as int, regions@.take(0)));
    while index < regions.len()
        invariant
            before.len() == width * height,
            pixels@.len() == before.len(),
            index <= regions@.len(),
            forall|i: int|
                0 <= i < regions@.len() ==> inside_picture(
                    #[trigger] regions@[i],
                    width as int,
                    height as int,
                ),
            pixels@ == with_outlines(before, width as int, regions@.take(index as int)),
        decreases regions@.len() - index,
    {
        let ghost earlier = pixels@;
        draw_outline(pixels, width, height, &regions[index]);
        proof {
            let done = regions@.take(index as int);
            let next = regions@.take(index + 1);
            let after = with_outlines(before, width as int, next);
            assert forall|p: int| 0 <= p < before.len() implies pixels@[p] == after[p] by {
                let x = p % (width as int);
                let y = p / (width as int);
                if on_some_outline(done, x, y) {
                    let i = choose|i: int|
                        0 <= i < done.len() && on_outline(#[trigger] done[i], x, y);
                    assert(next[i] == done[i]);
                }
                if on_outline(regions@[index as int], x, y) {
                    assert(on_outline(next[index as int], x, y));
                    assert(on_outline(seq![regions@[index as int]][0], x, y));
                }
                if on_some_outline(next, x, y) {
                    let i = choose|i: int|
                        0 <= i < next.len() && on_outline(#[trigger] next[i], x, y);
                    if i < index {
                        assert(done[i] == next[i]);
                    }
                }
            }
            assert(pixels@ =~= after);
        }
        index = index + 1;
    }
    assert(regions@.take(index as int) =~= regions@);
}

/// A pixel is drawn green exactly where it is the first or the last of a row or of a column of one of
/// the rectangles; every other pixel is left as it is.
pub proof fn law_outlines_follow_the_edges(
    desktop: Seq<u32>,
    width: int,
    height: int,
    regions: Seq<DesktopRect>,
    x: int,
    y: int,
)
    requires
        desktop.len() == width * height,
        0 <= x < width,
        0 <= y < height,
    ensures
        with_outlines(desktop, width, regions).len() == desktop.len(),
        (exists|i: int|
            0 <= i < regions.len() && (#[trigger] regions[i]).x <= x < regions[i].x
                + regions[i].width && regions[i].y <= y < regions[i].y + regions[i].height && (x
                == regions[i].x || x + 1 == regions[i].x + regions[i].width || y == regions[i].y
                || y + 1 == regions[i].y + regions[i].height)) ==> with_outlines(
            desktop,
            width,
            regions,
        )[y * width + x] == 0xff00,
        (forall|i: int|
            0 <= i < regions.len() ==> !((#[trigger] regions[i]).x <= x < regions[i].x
                + regions[i].width && regions[i].y <= y < regions[i].y + regions[i].height && (x
                == regions[i].x || x + 1 == regions[i].x + regions[i].width || y == regions[i].y
                || y + 1 == regions[i].y + regions[i].height))) ==> with_outlines(
            desktop,
            width,
            regions,
        )[y * width + x] == desktop[y * width + x],
{
    lemma_inside(width, height, x, y);
    crate::ui::picture::lemma_place(width, x, y);
    if exists|i: int|
        0 <= i < regions.len() && (#[trigger] regions[i]).x <= x < regions[i].x + regions[i].width
            && regions[i].y <= y < regions[i].y + regions[i].height && (x == regions[i].x || x + 1
            == regions[i].x + regions[i].width || y == regions[i].y || y + 1 == regions[i].y
            + regions[i].height) {
        let i = choose|i: int|
            0 <= i < regions.len() && (#[trigger] regions[i]).x <= x < regions[i].x
                + regions[i].width && regions[i].y <= y < regions[i].y + regions[i].height && (x
                == regions[i].x || x + 1 == regions[i].x + regions[i].width || y == regions[i].y
                || y + 1 == regions[i].y + regions[i].height);
        assert(on_outline(regions[i], x, y));
    }
}

} // verus!
