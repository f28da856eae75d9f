//! The remote cursor: which shapes are drawn, and how they are laid over the desktop.
use crate::error::{DcError, DcErrorView};
use crate::protocol::types::CursorShapeView;
use crate::protocol::CursorShape;
use crate::ui::picture::{bgra_color, color_number, lemma_inside, lemma_place};
use vstd::prelude::*;

verus! {

/// A mask of one bit for each pixel, twice: what stays of the desktop and what is inverted.
pub const MONOCHROME: u8 = 1;

/// Colors with an opacity.
pub const COLOR: u8 = 2;

/// Colors that either replace or invert the desktop.
pub const MASKED_COLOR: u8 = 4;

/// Rounded up division by eight: the bytes that hold so many bits.
pub open spec fn bytes_of_bits(bits: int) -> int {
    (bits + 7) / 8
}

/// The bytes that one row of a shape needs; none for an unknown kind.
pub open spec fn minimum_pitch(shape: CursorShapeView) -> int {
    if shape.kind == MONOCHROME {
        bytes_of_bits(shape.width as int)
    } else {
        4 * shape.width
    }
}

/// How many rows the data of a shape holds.
pub open spec fn data_rows(shape: CursorShapeView) -> int {
    if shape.kind == MONOCHROME {
        2 * shape.height
    } else {
        shape.height as int
    }
}

/// The number of rows as far as a 32-bit number can tell.
pub open spec fn counted_rows(shape: CursorShapeView) -> int {
    if data_rows(shape) > u32::MAX {
        u32::MAX as int
    } else {
        data_rows(shape)
    }
}

/// Why a shape cannot be drawn, if it cannot. A mask with more rows than can be counted always has
/// the wrong size: no data of a size that is accepted holds both its halves, and drawing it would
/// read behind the data.
pub open spec fn shape_failure(shape: CursorShapeView) -> Option<DcErrorView> {
    if shape.width == 0 || shape.height == 0 || shape.hotspot_x >= shape.width || shape.hotspot_y
        >= shape.height {
        Some(DcErrorView::Codec("invalid cursor shape dimensions"@))
    } else if shape.kind != MONOCHROME && shape.kind != COLOR && shape.kind != MASKED_COLOR {
        Some(DcErrorView::Codec("unknown cursor shape kind"@))
    } else if minimum_pitch(shape) > u32::MAX {
        Some(DcErrorView::Codec("cursor pitch overflowed"@))
    } else if shape.pitch < minimum_pitch(shape) {
        Some(DcErrorView::Codec("cursor shape pitch is too small"@))
    } else if shape.pitch * counted_rows(shape) > u32::MAX {
        Some(DcErrorView::Codec("cursor shape size overflowed"@))
    } else if shape.data.len() != shape.pitch * counted_rows(shape) || counted_rows(shape)
        < data_rows(shape) {
        Some(DcErrorView::Codec("cursor shape payload has the wrong size"@))
    } else {
        None
    }
}

/// Checks that a shape can be drawn.
pub fn validate_cursor_shape(shape: &CursorShape) -> (result: Result<(), DcError>)
    ensures
        match result {
            Ok(_) => shape_failure(shape@) is None,
            Err(error) => shape_failure(shape@) == Some(error@),
        },
{
    if shape.width == 0 || shape.height == 0 || shape.hotspot_x >= shape.width || shape.hotspot_y
        >= shape.height {
        return Err(DcError::codec("invalid cursor shape dimensions"));
    }
    let minimum: u64 = if shape.kind == MONOCHROME {
        (shape.width as u64 + 7) / 8
    } else if shape.kind == COLOR || shape.kind == MASKED_COLOR {
        4 * shape.width as u64
    } else {
        return Err(DcError::codec("unknown cursor shape kind"));
    };
    if minimum > u32::MAX as u64 {
        return Err(DcError::codec("cursor pitch overflowed"));
    }
    if (shape.pitch as u64) < minimum {
        return Err(DcError::codec("cursor shape pitch is too small"));
    }
    let rows: u64 = if shape.kind == MONOCHROME {
        2 * shape.height as u64
    } else {
        shape.height as u64
    };
    let counted: u64 = if rows > u32::MAX as u64 {
        u32::MAX as u64
    } else {
        rows
    };
    assert(0 <= shape.pitch * counted <= 0xffff_ffff * 0xffff_ffff) by (nonlinear_arith)
        requires
            0 <= shape.pitch <= 0xffff_ffff,
            0 <= counted <= 0xffff_ffff,
    ;
    let required: u128 = shape.pitch as u128 * counted as u128;
    if required > u32::MAX as u128 {
        return Err(DcError::codec("cursor shape size overflowed"));
    }
    let available: usize = shape.data.len();
    if available as u128 != required || counted < rows {
        return Err(DcError::codec("cursor shape payload has the wrong size"));
    }
    Ok(())
}

/// The value of the bit for a pixel in its byte, the first pixel in the highest bit.
pub open spec fn bit_value(x: int) -> u8 {
    if x == 0 {
        128
    } else if x == 1 {
        64
    } else if x == 2 {
        32
    } else if x == 3 {
        16
    } else if x == 4 {
        8
    } else if x == 5 {
        4
    } else if x == 6 {
        2
    } else {
        1
    }
}

/// Whether a pixel's bit is set in a row of bits that starts at a position.
pub open spec fn bit_set(data: Seq<u8>, row: int, x: int) -> bool {
    data[row + x / 8] / bit_value(x % 8) % 2 == 1
}

/// All bits of a color, or none.
pub open spec fn color_mask(set: bool) -> u32 {
    if set {
        0x00ff_ffff
    } else {
        0
    }
}

/// One channel of a color: blue is channel 0, green channel 1, red channel 2.
pub open spec fn channel(color: u32, index: int) -> int {
    if index == 0 {
        color as int % 256
    } else if index == 1 {
        color as int / 256 % 256
    } else {
        color as int / 65536 % 256
    }
}

/// Two channel values mixed, the first with an opacity out of 255.
pub open spec fn mixed(over: int, under: int, opacity: int) -> int {
    (over * opacity + under * (255 - opacity)) / 255
}

/// A color laid over another with an opacity.
pub open spec fn blended(over: u32, under: u32, opacity: u8) -> u32 {
    if opacity == 255 {
        over
    } else if opacity == 0 {
        under
    } else {
        (mixed(channel(over, 2), channel(under, 2), opacity as int) * 65536 + mixed(
            channel(over, 1),
            channel(under, 1),
            opacity as int,
        ) * 256 + mixed(channel(over, 0), channel(under, 0), opacity as int)) as u32
    }
}

/// The color of a pixel of the desktop under a pixel of a shape.
pub open spec fn cursor_color(shape: CursorShapeView, x: int, y: int, under: u32) -> u32 {
    if shape.kind == MONOCHROME {
        let kept = bit_set(shape.data, y * shape.pitch, x);
        let inverted = bit_set(shape.data, (shape.height + y) * shape.pitch, x);
        (under & color_mask(kept)) ^ color_mask(inverted)
    } else {
        let at = y * shape.pitch + 4 * x;
        let over = bgra_color(shape.data, at);
        let opacity = shape.data[at + 3];
        if shape.kind == COLOR {
            blended(over, under, opacity)
        } else if opacity == 0 {
            under ^ over
        } else {
            over
        }
    }
}

/// Where the remote cursor is and what it looks like.
pub struct RemoteCursor {
    pub visible: bool,
    pub x: i32,
    pub y: i32,
    pub shape: Option<CursorShape>,
}

/// The contents of a [`RemoteCursor`].
pub struct CursorState {
    pub visible: bool,
    pub x: int,
    pub y: int,
    pub shape: Option<CursorShapeView>,
}

impl View for RemoteCursor {
    type V = CursorState;

    open spec fn view(&self) -> CursorState {
        CursorState {
            visible: self.visible,
            x: self.x as int,
            y: self.y as int,
            shape: match self.shape {
                Some(shape) => Some(shape@),
                None => None,
            },
        }
    }
}

impl CursorState {
    /// A cursor is kept only with a shape that can be drawn.
    pub open spec fn drawable(self) -> bool {
        self.shape matches Some(shape) ==> shape_failure(shape) is None
    }

    /// The column of the shape over a column of the desktop.
    pub open spec fn column(self, x: int) -> int {
        x - self.x + self.shape->0.hotspot_x
    }

    /// The row of the shape over a row of the desktop.
    pub open spec fn row(self, y: int) -> int {
        y - self.y + self.shape->0.hotspot_y
    }

    /// Whether the shape lies over a pixel of the desktop.
    pub open spec fn covers(self, x: int, y: int) -> bool {
        &&& self.visible
        &&& self.shape matches Some(shape)
        &&& 0 <= self.column(x) < shape.width
        &&& 0 <= self.row(y) < shape.height
    }
}

/// A picture with the cursor drawn in the rows above `row`, and in that row left of `column`.
pub open spec fn drawn_until(
    desktop: Seq<u32>,
    width: int,
    cursor: CursorState,
    row: int,
    column: int,
) -> Seq<u32> {
    Seq::new(
        desktop.len(),
        |p: int|
            {
                let x = p % width;
                let y = p / width;
                if cursor.covers(x, y) && (y < row || (y == row && x < column)) {
                    cursor_color(cursor.shape->0, cursor.column(x), cursor.row(y), desktop[p])
                } else {
                    desktop[p]
                }
            },
    )
}

/// A picture with the cursor laid over it.
pub open spec fn with_cursor(desktop: Seq<u32>, width: int, cursor: CursorState) -> Seq<u32> {
    Seq::new(
        desktop.len(),
        |p: int|
            {
                let x = p % width;
                let y = p / width;
                if cursor.covers(x, y) {
                    cursor_color(cursor.shape->0, cursor.column(x), cursor.row(y), desktop[p])
                } else {
                    desktop[p]
                }
            },
    )
}

impl RemoteCursor {
    /// A cursor that is not shown.
    pub fn hidden() -> (cursor: RemoteCursor)
        ensures
            cursor@ == (CursorState { visible: false, x: 0, y: 0, shape: None }),
    {
        RemoteCursor { visible: false, x: 0, y: 0, shape: None }
    }
}

fn bit_of(data: &Vec<u8>, row: usize, x: usize) -> (set: bool)
    requires
        row + x / 8 < data@.len(),
    ensures
        set == bit_set(data@, row as int, x as int),
{
    let available: usize = data.len();
    let place: usize = x % 8;
    let value: u8 = if place == 0 {
        128
    } else if place == 1 {
        64
    } else if place == 2 {
        32
    } else if place == 3 {
        16
    } else if place == 4 {
        8
    } else if place == 5 {
        4
    } else if place == 6 {
        2
    } else {
        1
    };
    data[row + x / 8] / value % 2 == 1
}

fn mask_of(set: bool) -> (mask: u32)
    ensures
        mask == color_mask(set),
{
    if set {
        0x00ff_ffff
    } else {
        0
    }
}

fn mix(over: u32, under: u32, opacity: u8) -> (value: u32)
    requires
        over < 256,
        under < 256,
    ensures
        value == mixed(over as int, under as int, opacity as int),
        value < 256,
{
    let opaque: u32 = opacity as u32;
    let rest: u32 = 255 - opaque;
    assert(0 <= over * opaque <= 255 * opaque && 0 <= under * rest <= 255 * rest)
        by (nonlinear_arith)
        requires
            0 <= over <= 255,
            0 <= under <= 255,
            0 <= opaque,
            0 <= rest,
    ;
    (over * opaque + under * rest) / 255
}

fn blend(over: u32, under: u32, opacity: u8) -> (color: u32)
    ensures
        color == blended(over, under, opacity),
{
    if opacity == 255 {
        over
    } else if opacity == 0 {
        under
    } else {
        let red: u32 = mix(over / 65536 % 256, under / 65536 % 256, opacity);
        let green: u32 = mix(over / 256 % 256, under / 256 % 256, opacity);
        let blue: u32 = mix(over % 256, under % 256, opacity);
        red * 65536 + green * 256 + blue
    }
}

/// Where the rows of a drawable shape lie in its data.
proof fn lemma_shape_row(shape: CursorShapeView, x: int, y: int)
    requires
        shape_failure(shape) is None,
        0 <= x < shape.width,
        0 <= y < shape.height,
    ensures
        0 <= y * shape.pitch,
        shape.kind != MONOCHROME ==> y * shape.pitch + 4 * x + 4 <= shape.data.len(),
        shape.kind == MONOCHROME ==> y * shape.pitch + x / 8 < shape.data.len(),
        shape.kind == MONOCHROME ==> (shape.height + y) * shape.pitch + x / 8 < shape.data.len(),
        (shape.height + y) * shape.pitch == shape.height * shape.pitch + y * shape.pitch,
{
    let pitch = shape.pitch as int;
    let height = shape.height as int;
    assert(0 <= y * pitch && y * pitch + pitch <= height * pitch) by (nonlinear_arith)
        requires
            0 <= y < height,
            0 <= pitch,
    ;
    assert((height + y) * pitch == height * pitch + y * pitch) by (nonlinear_arith);
    assert(pitch * height == height * pitch && pitch * (2 * height) == 2 * (height * pitch))
        by (nonlinear_arith);
}

fn shape_color(shape: &CursorShape, x: usize, y: usize, under: u32) -> (color: u32)
    requires
        shape_failure(shape@) is None,
        x < shape.width,
        y < shape.height,
    ensures
        color == cursor_color(shape@, x as int, y as int, under),
{
    proof {
        lemma_shape_row(shape@, x as int, y as int);
    }
    let available: usize = shape.data.len();
    let pitch: usize = shape.pitch as usize;
    let row: usize = y * pitch;
    if shape.kind == MONOCHROME {
        let kept = bit_of(&shape.data, row, x);
        let second: usize = shape.height as usize * pitch + row;
        let inverted = bit_of(&shape.data, second, x);
        (under & mask_of(kept)) ^ mask_of(inverted)
    } else {
        let at: usize = row + 4 * x;
        let over: u32 = color_number(shape.data[at + 2], shape.data[at + 1], shape.data[at]);
        let opacity: u8 = shape.data[at + 3];
        if shape.kind == COLOR {
            blend(over, under, opacity)
        } else if opacity == 0 {
            under ^ over
        } else {
            over
        }
    }
}

/// One more pixel of the cursor.
proof fn lemma_next_drawn(
    desktop: Seq<u32>,
    width: int,
    height: int,
    cursor: CursorState,
    row: int,
    column: int,
)
    requires
        0 <= row < height,
        0 <= column < width,
        desktop.len() == width * height,
        cursor.covers(column, row),
    ensures
        ({
            let at = row * width + column;
            &&& 0 <= at < desktop.len()
            &&& drawn_until(desktop, width, cursor, row, column)[at] == desktop[at]
            &&& drawn_until(desktop, width, cursor, row, column + 1) == drawn_until(
                desktop,
                width,
                cursor,
                row,
                column,
            ).update(
                at,
                cursor_color(
                    cursor.shape->0,
                    cursor.column(column),
                    cursor.row(row),
                    desktop[at],
                ),
            )
        }),
{
    let at = row * width + column;
    lemma_place(width, column, row);
    lemma_inside(width, height, column, row);
    let before = drawn_until(desktop, width, cursor, row, column);
    let after = drawn_until(desktop, width, cursor, row, column + 1);
    let color = cursor_color(
        cursor.shape->0,
        cursor.column(column),
        cursor.row(row),
        desktop[at],
    );
    assert forall|p: int| 0 <= p < desktop.len() implies after[p] == before.update(at, color)[p] by {
        let x = p % width;
        let y = p / width;
        if y == row && x == column {
            vstd::arithmetic::div_mod::lemma_fundamental_div_mod(p, width);
            assert(width * y == y * width) by (nonlinear_arith);
            assert(p == at);
        }
    }
    assert(after =~= before.update(at, color));
}

/// Draws the cursor over a picture of the desktop.
pub fn draw_cursor(pixels: &mut Vec<u32>, width: usize, height: usize, cursor: &RemoteCursor)
    requires
        old(pixels)@.len() == width * height,
        cursor@.drawable(),
    ensures
        final(pixels)@ == with_cursor(old(pixels)@, width as int, cursor@),
{
    let ghost before = pixels@;
    let held: usize = pixels.len();
    let shape = match &cursor.shape {
        Some(shape) => shape,
        None => {
            assert(with_cursor(before, width as int, cursor@) =~= before);
            return ;
        },
    };
    if !cursor.visible {
        assert(with_cursor(before, width as int, cursor@) =~= before);
        return ;
    }
    let left: i128 = cursor.x as i128 - shape.hotspot_x as i128;
    let top: i128 = cursor.y as i128 - shape.hotspot_y as i128;
    let right: i128 = left + shape.width as i128;
    let bottom: i128 = top + shape.height as i128;
    let first_column: usize = if left < 0 {
        0
    } else if left < width as i128 {
        left as usize
    } else {
        width
    };
    let end_column: usize = if right < first_column as i128 {
        first_column
    } else if right < width as i128 {
        right as usize
    } else {
        width
    };
    let first_row: usize = if top < 0 {
        0
    } else if top < height as i128 {
        top as usize
    } else {
        height
    };
    let end_row: usize = if bottom < first_row as i128 {
        first_row
    } else if bottom < height as i128 {
        bottom as usize
    } else {
        height
    };
    let mut row: usize = first_row;
    proof {
        lemma_start(before, width as int, height as int, cursor@, row as int);
    }
    while row < end_row
        invariant
            before.len() == width * height,
            held == before.len(),
            pixels@.len() == before.len(),
            cursor@.drawable(),
            cursor.visible,
            cursor@.shape == Some(shape@),
            left == cursor.x - shape.hotspot_x,
            top == cursor.y - shape.hotspot_y,
            right == left + shape.width,
            bottom == top + shape.height,
            first_column <= end_column <= width,
            first_row <= row <= end_row <= height,
            columns_free(cursor@, 0, first_column as int),
            columns_free(cursor@, end_column as int, width as int),
            first_column < end_column ==> left <= first_column && end_column <= right,
            rows_free(cursor@, end_row as int, height as int),
            first_row < end_row ==> top <= first_row && end_row <= bottom,
            pixels@ == drawn_until(before, width as int, cursor@, row as int, 0),
        decreases end_row - row,
    {
        let mut column: usize = first_column;
        proof {
            lemma_row_start(
                before,
                width as int,
                height as int,
                cursor@,
                row as int,
                column as int,
            );
        }
        while column < end_column
            invariant
                before.len() == width * height,
                held == before.len(),
                pixels@.len() == before.len(),
                cursor@.drawable(),
                cursor.visible,
                cursor@.shape == Some(shape@),
                left == cursor.x - shape.hotspot_x,
                top == cursor.y - shape.hotspot_y,
                top <= row < bottom,
                bottom == top + shape.height,
                row < height,
                first_column <= column <= end_column <= width,
                left <= column || column == end_column,
                end_column <= right || first_column == end_column,
                right == left + shape.width,
                pixels@ == drawn_until(
                    before,
                    width as int,
                    cursor@,
                    row as int,
                    column as int,
                ),
            decreases end_column - column,
        {
            proof {
                lemma_next_drawn(
                    before,
                    width as int,
                    height as int,
                    cursor@,
                    row as int,
                    column as int,
                );
                assert(row * width >= 0) by (nonlinear_arith)
                    requires
                        row >= 0,
                        width >= 0,
                ;
            }
            let at: usize = row * width + column;
            let under: u32 = pixels[at];
            let shape_x: usize = (column as i128 - left) as usize;
            let shape_y: usize = (row as i128 - top) as usize;
            pixels.set(at, shape_color(shape, shape_x, shape_y, under));
            column = column + 1;
        }
        proof {
            lemma_row_end(
                before,
                width as int,
                height as int,
                cursor@,
                row as int,
                column as int,
            );
        }
        row = row + 1;
    }
    proof {
        lemma_end(before, width as int, height as int, cursor@, row as int);
    }
}

/// Whether the cursor is drawn in none of the rows from one to another.
spec fn rows_free(cursor: CursorState, from: int, to: int) -> bool {
    forall|y: int| from <= y < to ==> !(0 <= #[trigger] cursor.row(y) < cursor.shape->0.height)
}

/// Whether the cursor is drawn in none of the columns from one to another.
spec fn columns_free(cursor: CursorState, from: int, to: int) -> bool {
    forall|x: int| from <= x < to ==> !(0 <= #[trigger] cursor.column(x) < cursor.shape->0.width)
}

/// The column and the row of a pixel lie inside the picture.
proof fn lemma_coordinates(width: int, height: int, p: int)
    requires
        0 <= width,
        0 <= height,
        0 <= p < width * height,
    ensures
        0 <= p % width < width,
        0 <= p / width < height,
{
    assert(width > 0) by (nonlinear_arith)
        requires
            0 <= width,
            0 < width * height,
    ;
    vstd::arithmetic::div_mod::lemma_fundamental_div_mod(p, width);
    let y = p / width;
    assert(0 <= y < height) by (nonlinear_arith)
        requires
            width > 0,
            0 <= p < width * height,
            p == width * y + p % width,
            0 <= p % width < width,
    ;
}

proof fn lemma_start(desktop: Seq<u32>, width: int, height: int, cursor: CursorState, row: int)
    requires
        0 <= width,
        0 <= height,
        desktop.len() == width * height,
        rows_free(cursor, 0, row),
    ensures
        drawn_until(desktop, width, cursor, row, 0) == desktop,
{
    assert forall|p: int| 0 <= p < desktop.len() implies drawn_until(
        desktop,
        width,
        cursor,
        row,
        0,
    )[p] == desktop[p] by {
        lemma_coordinates(width, height, p);
        let y = p / width;
        let reached = cursor.row(y);
    }
    assert(drawn_until(desktop, width, cursor, row, 0) =~= desktop);
}

proof fn lemma_row_start(
    desktop: Seq<u32>,
    width: int,
    height: int,
    cursor: CursorState,
    row: int,
    column: int,
)
    requires
        0 <= width,
        0 <= height,
        desktop.len() == width * height,
        columns_free(cursor, 0, column),
    ensures
        drawn_until(desktop, width, cursor, row, column) == drawn_until(
            desktop,
            width,
            cursor,
            row,
            0,
        ),
{
    let first = drawn_until(desktop, width, cursor, row, column);
    let second = drawn_until(desktop, width, cursor, row, 0);
    assert forall|p: int| 0 <= p < desktop.len() implies first[p] == second[p] by {
        lemma_coordinates(width, height, p);
        let reached = cursor.column(p % width);
    }
    assert(first =~= second);
}

proof fn lemma_row_end(
    desktop: Seq<u32>,
    width: int,
    height: int,
    cursor: CursorState,
    row: int,
    column: int,
)
    requires
        0 <= width,
        0 <= height,
        desktop.len() == width * height,
        columns_free(cursor, column, width),
    ensures
        drawn_until(desktop, width, cursor, row, column) == drawn_until(
            desktop,
            width,
            cursor,
            row + 1,
            0,
        ),
{
    let first = drawn_until(desktop, width, cursor, row, column);
    let second = drawn_until(desktop, width, cursor, row + 1, 0);
    assert forall|p: int| 0 <= p < desktop.len() implies first[p] == second[p] by {
        lemma_coordinates(width, height, p);
        let reached = cursor.column(p % width);
    }
    assert(first =~= second);
}

proof fn lemma_end(desktop: Seq<u32>, width: int, height: int, cursor: CursorState, row: int)
    requires
        0 <= width,
        0 <= height,
        desktop.len() == width * height,
        rows_free(cursor, row, height),
    ensures
        drawn_until(desktop, width, cursor, row, 0) == with_cursor(desktop, width, cursor),
{
    let first = drawn_until(desktop, width, cursor, row, 0);
    let second = with_cursor(desktop, width, cursor);
    assert forall|p: int| 0 <= p < desktop.len() implies first[p] == second[p] by {
        lemma_coordinates(width, height, p);
        let reached = cursor.row(p / width);
    }
    assert(first =~= second);
}

/// Drawing the cursor leaves every pixel as it was that its shape does not cover; a cursor that is
/// hidden or has no shape changes nothing.
pub proof fn law_cursor_covers_only_its_shape(
    desktop: Seq<u32>,
    width: int,
    cursor: CursorState,
    p: int,
)
    requires
        0 <= p < desktop.len(),
        !cursor.covers(p % width, p / width),
    ensures
        with_cursor(desktop, width, cursor)[p] == desktop[p],
{
}

/// The part of a color, from the lowest byte on.
pub open spec fn part_of(color: u32, part: int) -> int {
    if part == 0 {
        color as int % 256
    } else if part == 1 {
        color as int / 256 % 256
    } else {
        color as int / 65536 % 256
    }
}

/// Drawing the cursor puts the column of the shape at its hotspot on the cursor's column, and the row
/// at its hotspot on the cursor's row; columns to the right and rows below follow in order. Every
/// other pixel stays, and so does the whole picture under a cursor that is not visible.
pub proof fn law_cursor_lies_at_its_hotspot(
    desktop: Seq<u32>,
    width: int,
    height: int,
    cursor: CursorState,
    x: int,
    y: int,
)
    requires
        desktop.len() == width * height,
        0 <= x < width,
        0 <= y < height,
        cursor.drawable(),
    ensures
        with_cursor(desktop, width, cursor).len() == desktop.len(),
        cursor.shape is None || !cursor.visible ==> with_cursor(desktop, width, cursor) == desktop,
        cursor.shape matches Some(shape) && (x < cursor.x - shape.hotspot_x || cursor.x
            - shape.hotspot_x + shape.width <= x || y < cursor.y - shape.hotspot_y || cursor.y
            - shape.hotspot_y + shape.height <= y) ==> with_cursor(desktop, width, cursor)[y * width
            + x] == desktop[y * width + x],
{
    lemma_inside(width, height, x, y);
    lemma_place(width, x, y);
    if cursor.shape is None || !cursor.visible {
        assert(with_cursor(desktop, width, cursor) =~= desktop);
    }
}

/// A cursor of colors shows its own pixels in place, the first row of its data on top. Where it is
/// opaque its color replaces the desktop, where it is clear the desktop stays, and in between each
/// part of the color is the mean of both, weighted with the opacity.
pub proof fn law_color_cursor_shows_its_pixels(
    desktop: Seq<u32>,
    width: int,
    height: int,
    cursor: CursorState,
    x: int,
    y: int,
)
    requires
        desktop.len() == width * height,
        0 <= x < width,
        0 <= y < height,
        cursor.visible,
        cursor.drawable(),
        cursor.shape matches Some(shape) && shape.kind == 2 && 0 <= x - cursor.x + shape.hotspot_x
            < shape.width && 0 <= y - cursor.y + shape.hotspot_y < shape.height,
    ensures
        ({
            let shape = cursor.shape->0;
            let at = (y - cursor.y + shape.hotspot_y) * shape.pitch + 4 * (x - cursor.x
                + shape.hotspot_x);
            let under = desktop[y * width + x];
            let drawn = with_cursor(desktop, width, cursor)[y * width + x];
            let opacity = shape.data[at + 3];
            &&& 0 <= at && at + 4 <= shape.data.len()
            &&& opacity == 255 ==> drawn == 0x1_0000 * shape.data[at + 2] + 0x100 * shape.data[at
                + 1] + shape.data[at]
            &&& opacity == 0 ==> drawn == under
            &&& 0 < opacity < 255 ==> drawn < 0x100_0000 && forall|part: int|
                0 <= part < 3 ==> {
                    let sum = shape.data[at + part] * opacity + (#[trigger] part_of(under, part))
                        * (255 - opacity);
                    255 * part_of(drawn, part) <= sum < 255 * part_of(drawn, part) + 255
                }
        }),
{
    let shape = cursor.shape->0;
    let column = x - cursor.x + shape.hotspot_x;
    let row = y - cursor.y + shape.hotspot_y;
    lemma_inside(width, height, x, y);
    lemma_place(width, x, y);
    lemma_shape_row(shape, column, row);
    let at = row * shape.pitch + 4 * column;
    let under = desktop[y * width + x];
    let drawn = with_cursor(desktop, width, cursor)[y * width + x];
    let opacity = shape.data[at + 3];
    assert(drawn == blended(bgra_color(shape.data, at), under, opacity));
    if 0 < opacity < 255 {
        lemma_blended(shape.data[at + 2], shape.data[at + 1], shape.data[at], under, opacity);
        assert forall|part: int| 0 <= part < 3 implies {
            let sum = shape.data[at + part] * opacity + (#[trigger] part_of(under, part)) * (255
                - opacity);
            255 * part_of(drawn, part) <= sum < 255 * part_of(drawn, part) + 255
        } by {
            assert(shape.data[at + 0] == shape.data[at]);
        }
    }
}

proof fn lemma_blended(red: u8, green: u8, blue: u8, under: u32, opacity: u8)
    requires
        0 < opacity < 255,
    ensures
        ({
            let drawn = blended(crate::ui::picture::color(red, green, blue), under, opacity);
            let rest = 255 - opacity;
            &&& drawn < 0x100_0000
            &&& 255 * part_of(drawn, 0) <= blue * opacity + part_of(under, 0) * rest < 255
                * part_of(drawn, 0) + 255
            &&& 255 * part_of(drawn, 1) <= green * opacity + part_of(under, 1) * rest < 255
                * part_of(drawn, 1) + 255
            &&& 255 * part_of(drawn, 2) <= red * opacity + part_of(under, 2) * rest < 255
                * part_of(drawn, 2) + 255
        }),
{
    let over = crate::ui::picture::color(red, green, blue);
    assert(channel(over, 0) == blue && channel(over, 1) == green && channel(over, 2) == red);
    let low = mixed(blue as int, channel(under, 0), opacity as int);
    let middle = mixed(green as int, channel(under, 1), opacity as int);
    let high = mixed(red as int, channel(under, 2), opacity as int);
    lemma_mixed(blue as int, channel(under, 0), opacity as int);
    lemma_mixed(green as int, channel(under, 1), opacity as int);
    lemma_mixed(red as int, channel(under, 2), opacity as int);
    let drawn = blended(over, under, opacity);
    assert(drawn == high * 65536 + middle * 256 + low);
    assert(part_of(drawn, 0) == low && part_of(drawn, 1) == middle && part_of(drawn, 2) == high);
}

proof fn lemma_mixed(over: int, under: int, opacity: int)
    requires
        0 <= over < 256,
        0 <= under < 256,
        0 <= opacity <= 255,
    ensures
        0 <= mixed(over, under, opacity) < 256,
        255 * mixed(over, under, opacity) <= over * opacity + under * (255 - opacity) < 255 * mixed(
            over,
            under,
            opacity,
        ) + 255,
{
    assert(0 <= over * opacity <= 255 * opacity && 0 <= under * (255 - opacity) <= 255 * (255
        - opacity)) by (nonlinear_arith)
        requires
            0 <= over < 256,
            0 <= under < 256,
            0 <= opacity <= 255,
    ;
}

/// A cursor of masked colors replaces the desktop where its mask is set, and where it is not, turns
/// over the bits of the desktop that its color names.
pub proof fn law_masked_cursor_shows_its_pixels(
    desktop: Seq<u32>,
    width: int,
    height: int,
    cursor: CursorState,
    x: int,
    y: int,
)
    requires
        desktop.len() == width * height,
        0 <= x < width,
        0 <= y < height,
        cursor.visible,
        cursor.drawable(),
        cursor.shape matches Some(shape) && shape.kind == 4 && 0 <= x - cursor.x + shape.hotspot_x
            < shape.width && 0 <= y - cursor.y + shape.hotspot_y < shape.height,
    ensures
        ({
            let shape = cursor.shape->0;
            let at = (y - cursor.y + shape.hotspot_y) * shape.pitch + 4 * (x - cursor.x
                + shape.hotspot_x);
            let under = desktop[y * width + x];
            let drawn = with_cursor(desktop, width, cursor)[y * width + x];
            let over = (0x1_0000 * shape.data[at + 2] + 0x100 * shape.data[at + 1]
                + shape.data[at]) as u32;
            &&& 0 <= at && at + 4 <= shape.data.len()
            &&& shape.data[at + 3] != 0 ==> drawn == over
            &&& shape.data[at + 3] == 0 ==> drawn == under ^ over
        }),
{
    let shape = cursor.shape->0;
    lemma_inside(width, height, x, y);
    lemma_place(width, x, y);
    lemma_shape_row(shape, x - cursor.x + shape.hotspot_x, y - cursor.y + shape.hotspot_y);
}

/// The bit of a column, the first in the highest place of a byte, and eight to a byte.
pub open spec fn mask_bit(data: Seq<u8>, row: int, column: int) -> bool {
    data[row + column / 8] & (0x80u8 >> (column % 8) as u8) != 0
}

/// A cursor of masks is made of two: the upper half of its rows tells what stays of the desktop, the
/// lower half what is turned over. So a pixel is black, white, as it was or the opposite of it.
pub proof fn law_mask_cursor_shows_its_pixels(
    desktop: Seq<u32>,
    width: int,
    height: int,
    cursor: CursorState,
    x: int,
    y: int,
)
    requires
        desktop.len() == width * height,
        0 <= x < width,
        0 <= y < height,
        desktop[y * width + x] <= 0xff_ffff,
        cursor.visible,
        cursor.drawable(),
        cursor.shape matches Some(shape) && shape.kind == 1 && 0 <= x - cursor.x + shape.hotspot_x
            < shape.width && 0 <= y - cursor.y + shape.hotspot_y < shape.height,
    ensures
        ({
            let shape = cursor.shape->0;
            let column = x - cursor.x + shape.hotspot_x;
            let row = y - cursor.y + shape.hotspot_y;
            let stays = mask_bit(shape.data, row * shape.pitch, column);
            let turns = mask_bit(shape.data, (shape.height + row) * shape.pitch, column);
            let under = desktop[y * width + x];
            with_cursor(desktop, width, cursor)[y * width + x] == match (stays, turns) {
                (false, false) => 0u32,
                (false, true) => 0xff_ffffu32,
                (true, false) => under,
                (true, true) => (0xff_ffff - under) as u32,
            }
        }),
{
    let shape = cursor.shape->0;
    let column = x - cursor.x + shape.hotspot_x;
    let row = y - cursor.y + shape.hotspot_y;
    lemma_inside(width, height, x, y);
    lemma_place(width, x, y);
    lemma_shape_row(shape, column, row);
    lemma_mask_bit(shape.data[row * shape.pitch + column / 8], column % 8);
    lemma_mask_bit(shape.data[(shape.height + row) * shape.pitch + column / 8], column % 8);
    let under = desktop[y * width + x];
    assert((under & 0u32) ^ 0u32 == 0u32) by (bit_vector);
    assert((under & 0u32) ^ 0xff_ffffu32 == 0xff_ffffu32) by (bit_vector);
    assert((under & 0xff_ffffu32) ^ 0u32 == under) by (bit_vector)
        requires
            under <= 0xff_ffff,
    ;
    assert((under & 0xff_ffffu32) ^ 0xff_ffffu32 == (0xff_ffff - under) as u32) by (bit_vector)
        requires
            under <= 0xff_ffff,
    ;
}

proof fn lemma_mask_bit(byte: u8, place: int)
    requires
        0 <= place < 8,
    ensures
        (byte / bit_value(place) % 2 == 1) == (byte & (0x80u8 >> place as u8) != 0),
{
    assert((byte / 128 % 2 == 1) == (byte & (0x80u8 >> 0u8) != 0) && (byte / 64 % 2 == 1) == (byte
        & (0x80u8 >> 1u8) != 0) && (byte / 32 % 2 == 1) == (byte & (0x80u8 >> 2u8) != 0) && (byte
        / 16 % 2 == 1) == (byte & (0x80u8 >> 3u8) != 0) && (byte / 8 % 2 == 1) == (byte & (0x80u8
        >> 4u8) != 0) && (byte / 4 % 2 == 1) == (byte & (0x80u8 >> 5u8) != 0) && (byte / 2 % 2
        == 1) == (byte & (0x80u8 >> 6u8) != 0) && (byte / 1 % 2 == 1) == (byte & (0x80u8 >> 7u8)
        != 0)) by (bit_vector);
}

/// A shape can be drawn exactly where it is not empty, its hotspot is one of its pixels, its kind is
/// known, its rows hold their pixels, and its data is as long as its rows: one bit for each pixel of
/// each of two masks, or four bytes for each pixel.
pub proof fn law_whole_shapes_are_taken(shape: CursorShapeView)
    requires
        shape.height < 0x8000_0000,
        shape.width < 0x4000_0000,
    ensures
        shape_failure(shape) is None <==> {
            &&& 0 < shape.width
            &&& 0 < shape.height
            &&& shape.hotspot_x < shape.width
            &&& shape.hotspot_y < shape.height
            &&& shape.data.len() <= u32::MAX
            &&& {
                ||| shape.kind == 1 && 8 * shape.pitch >= shape.width && shape.data.len()
                    == shape.pitch * (2 * shape.height)
                ||| (shape.kind == 2 || shape.kind == 4) && shape.pitch >= 4 * shape.width
                    && shape.data.len() == shape.pitch * shape.height
            }
        },
{
}

} // verus!
