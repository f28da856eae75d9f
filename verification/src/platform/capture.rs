//! Captured desktop frames: their rows, the damage and the cursor that came with them.
use crate::error::{DcError, DcErrorView};
use crate::media::frame::{
    CursorShape, CursorShapeKind, CursorShapeView, CursorUpdate, CursorUpdateView, DamageRect,
    FrameLayout, FrameMetadata, FrameSize, FrameView, MetadataView, VideoFrame,
};
use crate::media::h264::{pack_rows, packed_rows};
use crate::text::{decimal, decimal_text, joined};
use crate::time::Duration;
use vstd::prelude::*;

verus! {

/// A rectangle of the screen by its edges. The right and the bottom edge lie outside.
#[derive(Clone, Copy, Debug, Eq, PartialEq, Structural)]
pub struct ScreenRect {
    pub left: i32,
    pub top: i32,
    pub right: i32,
    pub bottom: i32,
}

/// A rectangle of the screen that was moved from somewhere else.
#[derive(Clone, Copy, Debug, Eq, PartialEq, Structural)]
pub struct ScreenMove {
    pub source_x: i32,
    pub source_y: i32,
    pub destination: ScreenRect,
}

/// A number brought between zero and a limit.
pub open spec fn between(value: int, limit: int) -> int {
    if value < 0 {
        0
    } else if value > limit {
        limit
    } else {
        value
    }
}

/// The part of a rectangle that lies on the desktop, if there is one.
pub open spec fn visible_part(
    left: int,
    top: int,
    right: int,
    bottom: int,
    width: u32,
    height: u32,
) -> Option<DamageRect> {
    let x = between(left, width as int);
    let y = between(top, height as int);
    let end_x = between(right, width as int);
    let end_y = between(bottom, height as int);
    if end_x > x && end_y > y {
        Some(
            DamageRect {
                x: x as u32,
                y: y as u32,
                width: (end_x - x) as u32,
                height: (end_y - y) as u32,
            },
        )
    } else {
        None
    }
}

/// The damage of a changed rectangle.
pub open spec fn damage_of(rect: ScreenRect, width: u32, height: u32) -> Option<DamageRect> {
    visible_part(
        rect.left as int,
        rect.top as int,
        rect.right as int,
        rect.bottom as int,
        width,
        height,
    )
}

/// The damage of a rectangle where there is some.
pub open spec fn some_damage(damage: Option<DamageRect>) -> Seq<DamageRect> {
    match damage {
        Some(rect) => seq![rect],
        None => Seq::empty(),
    }
}

/// The damage of a moved rectangle: where it came from and where it went, unless nothing of it
/// went onto the desktop.
pub open spec fn damage_of_move(movement: ScreenMove, width: u32, height: u32) -> Seq<DamageRect> {
    match damage_of(movement.destination, width, height) {
        Some(region) => some_damage(
            visible_part(
                movement.source_x as int,
                movement.source_y as int,
                movement.source_x + region.width,
                movement.source_y + region.height,
                width,
                height,
            ),
        ).push(region),
        None => Seq::empty(),
    }
}

/// The damage of changed rectangles.
pub open spec fn dirty_damage(dirty: Seq<ScreenRect>, width: u32, height: u32) -> Seq<DamageRect>
    decreases dirty.len(),
{
    if dirty.len() == 0 {
        Seq::empty()
    } else {
        dirty_damage(dirty.drop_last(), width, height) + some_damage(
            damage_of(dirty.last(), width, height),
        )
    }
}

/// The damage of moved rectangles.
pub open spec fn move_damage(moves: Seq<ScreenMove>, width: u32, height: u32) -> Seq<DamageRect>
    decreases moves.len(),
{
    if moves.len() == 0 {
        Seq::empty()
    } else {
        move_damage(moves.drop_last(), width, height) + damage_of_move(moves.last(), width, height)
    }
}

fn clamp(value: i64, limit: u32) -> (result: u32)
    ensures
        result == between(value as int, limit as int),
{
    if value < 0 {
        0
    } else if value > limit as i64 {
        limit
    } else {
        value as u32
    }
}

fn part_on_desktop(left: i64, top: i64, right: i64, bottom: i64, width: u32, height: u32) -> (damage:
    Option<DamageRect>)
    ensures
        damage == visible_part(
            left as int,
            top as int,
            right as int,
            bottom as int,
            width,
            height,
        ),
{
    let x: u32 = clamp(left, width);
    let y: u32 = clamp(top, height);
    let end_x: u32 = clamp(right, width);
    let end_y: u32 = clamp(bottom, height);
    if end_x > x && end_y > y {
        Some(DamageRect { x, y, width: end_x - x, height: end_y - y })
    } else {
        None
    }
}

/// The damage of a changed rectangle: the part of it that lies on the desktop.
pub fn damage_rect(rect: &ScreenRect, width: u32, height: u32) -> (damage: Option<DamageRect>)
    ensures
        damage == damage_of(*rect, width, height),
{
    part_on_desktop(
        rect.left as i64,
        rect.top as i64,
        rect.right as i64,
        rect.bottom as i64,
        width,
        height,
    )
}

/// The metadata of a capture: the damage, which is never left open, and the cursor.
pub fn capture_metadata(
    dirty: &[ScreenRect],
    moves: &[ScreenMove],
    cursor: Option<CursorUpdate>,
    width: u32,
    height: u32,
) -> (metadata: FrameMetadata)
    ensures
        metadata@ == (MetadataView {
            damage: Some(dirty_damage(dirty@, width, height) + move_damage(moves@, width, height)),
            cursor: match cursor {
                Some(cursor) => Some(cursor@),
                None => None,
            },
        }),
{
    let mut damage: Vec<DamageRect> = Vec::new();
    let mut index: usize = 0;
    assert(dirty@.take(0) =~= Seq::empty());
    while index < dirty.len()
        invariant
            index <= dirty@.len(),
            damage@ == dirty_damage(dirty@.take(index as int), width, height),
        decreases dirty@.len() - index,
    {
        assert(dirty@.take(index + 1).drop_last() =~= dirty@.take(index as int));
        if let Some(region) = damage_rect(&dirty[index], width, height) {
            damage.push(region);
        }
        assert(damage@ =~= dirty_damage(dirty@.take(index + 1), width, height));
        index = index + 1;
    }
    assert(dirty@.take(index as int) =~= dirty@);
    let ghost changed = damage@;
    let mut index: usize = 0;
    assert(moves@.take(0) =~= Seq::empty());
    assert(damage@ =~= changed + move_damage(moves@.take(0), width, height));
    while index < moves.len()
        invariant
            index <= moves@.len(),
            damage@ == changed + move_damage(moves@.take(index as int), width, height),
        decreases moves@.len() - index,
    {
        assert(moves@.take(index + 1).drop_last() =~= moves@.take(index as int));
        let movement = moves[index];
        if let Some(region) = damage_rect(&movement.destination, width, height) {
            let source = part_on_desktop(
                movement.source_x as i64,
                movement.source_y as i64,
                movement.source_x as i64 + region.width as i64,
                movement.source_y as i64 + region.height as i64,
                width,
                height,
            );
            if let Some(source) = source {
                damage.push(source);
            }
            damage.push(region);
        }
        assert(damage@ =~= changed + move_damage(moves@.take(index + 1), width, height));
        index = index + 1;
    }
    assert(moves@.take(index as int) =~= moves@);
    FrameMetadata { damage: Some(damage), cursor }
}

/// The number of a pointer shape that is a mask.
pub const POINTER_SHAPE_MONOCHROME: u32 = 1;

/// The number of a pointer shape with colors and an opacity.
pub const POINTER_SHAPE_COLOR: u32 = 2;

/// The number of a pointer shape with colors that replace or invert.
pub const POINTER_SHAPE_MASKED_COLOR: u32 = 4;

/// A pointer shape as it was captured. The mask of a monochrome shape is given with its double
/// height, and only the first `required` bytes of the data belong to the shape.
pub struct PointerShape {
    pub shape_type: u32,
    pub width: u32,
    pub height: u32,
    pub pitch: u32,
    pub hotspot_x: i32,
    pub hotspot_y: i32,
    pub required: u32,
    pub data: Vec<u8>,
}

/// The kind of a pointer shape, if its number is known.
pub open spec fn shape_kind(shape_type: u32) -> Option<CursorShapeKind> {
    if shape_type == POINTER_SHAPE_MONOCHROME {
        Some(CursorShapeKind::Monochrome)
    } else if shape_type == POINTER_SHAPE_COLOR {
        Some(CursorShapeKind::Color)
    } else if shape_type == POINTER_SHAPE_MASKED_COLOR {
        Some(CursorShapeKind::MaskedColor)
    } else {
        None
    }
}

/// The first bytes of a buffer, or all of them where there are fewer.
pub open spec fn truncated(data: Seq<u8>, count: int) -> Seq<u8> {
    if count < data.len() {
        data.take(count)
    } else {
        data
    }
}

/// The shape of a captured pointer, or the refusal of an unknown kind.
pub open spec fn shape_of_pointer(
    shape_type: u32,
    width: u32,
    height: u32,
    pitch: u32,
    hotspot_x: i32,
    hotspot_y: i32,
    data: Seq<u8>,
) -> Result<CursorShapeView, DcErrorView> {
    match shape_kind(shape_type) {
        None => Err(
            DcErrorView::Unsupported(
                "DXGI pointer shape type "@ + decimal(shape_type as nat) + " is not supported"@,
            ),
        ),
        Some(kind) => Ok(
            CursorShapeView {
                kind,
                width,
                height: if kind == CursorShapeKind::Monochrome {
                    height / 2
                } else {
                    height
                },
                hotspot_x: if hotspot_x < 0 {
                    0
                } else {
                    hotspot_x as u32
                },
                hotspot_y: if hotspot_y < 0 {
                    0
                } else {
                    hotspot_y as u32
                },
                pitch,
                data,
            },
        ),
    }
}

/// The shape of a captured pointer.
pub fn capture_cursor_shape(pointer: PointerShape) -> (result: Result<CursorShape, DcError>)
    ensures
        ({
            let given = shape_of_pointer(
                pointer.shape_type,
                pointer.width,
                pointer.height,
                pointer.pitch,
                pointer.hotspot_x,
                pointer.hotspot_y,
                truncated(pointer.data@, pointer.required as int),
            );
            match result {
                Ok(shape) => given == Ok::<CursorShapeView, DcErrorView>(shape@),
                Err(error) => given == Err::<CursorShapeView, DcErrorView>(error@),
            }
        }),
{
    let mut data = pointer.data;
    let ghost whole = data@;
    data.truncate(pointer.required as usize);
    assert(data@ =~= truncated(whole, pointer.required as int));
    let kind = if pointer.shape_type == POINTER_SHAPE_MONOCHROME {
        CursorShapeKind::Monochrome
    } else if pointer.shape_type == POINTER_SHAPE_COLOR {
        CursorShapeKind::Color
    } else if pointer.shape_type == POINTER_SHAPE_MASKED_COLOR {
        CursorShapeKind::MaskedColor
    } else {
        let number = decimal_text(pointer.shape_type as u64);
        let message = joined("DXGI pointer shape type ", number.as_str());
        return Err(DcError::Unsupported(joined(message.as_str(), " is not supported")));
    };
    let height: u32 = if kind == CursorShapeKind::Monochrome {
        pointer.height / 2
    } else {
        pointer.height
    };
    let hotspot_x: u32 = if pointer.hotspot_x < 0 {
        0
    } else {
        pointer.hotspot_x as u32
    };
    let hotspot_y: u32 = if pointer.hotspot_y < 0 {
        0
    } else {
        pointer.hotspot_y as u32
    };
    Ok(
        CursorShape {
            kind,
            width: pointer.width,
            height,
            hotspot_x,
            hotspot_y,
            pitch: pointer.pitch,
            data,
        },
    )
}

/// Whether a captured frame tells of the cursor.
pub open spec fn cursor_told(last_mouse_update: i64, reshaped: bool) -> bool {
    last_mouse_update != 0 || reshaped
}

/// The cursor of a capture: none where neither a time of a mouse update nor a new shape came.
pub fn capture_cursor(
    last_mouse_update: i64,
    visible: bool,
    x: i32,
    y: i32,
    shape: Option<CursorShape>,
) -> (cursor: Option<CursorUpdate>)
    ensures
        match cursor {
            Some(update) => (last_mouse_update != 0 || shape is Some) && update@ == (
            CursorUpdateView {
                visible,
                x,
                y,
                shape: match shape {
                    Some(shape) => Some(shape@),
                    None => None,
                },
            }),
            None => last_mouse_update == 0 && shape is None,
        },
        cursor is Some == cursor_told(last_mouse_update, shape is Some),
{
    if last_mouse_update != 0 || shape.is_some() {
        Some(CursorUpdate { visible, x, y, shape })
    } else {
        None
    }
}

/// How many bytes a mapped desktop has, where its rows are long enough.
pub open spec fn mapped_bytes(row_pitch: int, width: int, height: int) -> Option<int> {
    if row_pitch < 4 * width || row_pitch * height > usize::MAX {
        None
    } else {
        Some(row_pitch * height)
    }
}

/// How many bytes a mapped desktop has, or why it cannot be read.
pub fn mapped_length(row_pitch: usize, size: FrameSize) -> (result: Result<usize, DcError>)
    ensures
        match mapped_bytes(row_pitch as int, size.spec_width() as int, size.spec_height() as int) {
            Some(bytes) => result matches Ok(length) && length == bytes,
            None => result is Err,
        },
        match result {
            Ok(length) => 4 * size.spec_width() <= row_pitch && length == row_pitch
                * size.spec_height(),
            Err(error) => if row_pitch < 4 * size.spec_width() {
                error@ == DcErrorView::Platform(
                    "D3D11 returned an invalid mapped desktop texture"@,
                )
            } else {
                row_pitch * size.spec_height() > usize::MAX && error@ == DcErrorView::Platform(
                    "mapped desktop buffer size overflowed"@,
                )
            },
        },
{
    let width: u32 = size.width();
    let height: u32 = size.height();
    if (row_pitch as u64) < 4 * width as u64 {
        return Err(DcError::platform("D3D11 returned an invalid mapped desktop texture"));
    }
    match row_pitch.checked_mul(height as usize) {
        Some(length) => Ok(length),
        None => Err(DcError::platform("mapped desktop buffer size overflowed")),
    }
}

/// Copies the rows of a mapped desktop without what stands behind each row.
pub fn copy_mapped_bgra(source: &[u8], row_pitch: usize, size: FrameSize) -> (data: Vec<u8>)
    requires
        4 * size.spec_width() <= row_pitch,
        source@.len() == row_pitch * size.spec_height(),
    ensures
        data@ == packed_rows(
            source@,
            row_pitch as int,
            4 * size.spec_width(),
            size.spec_height() as nat,
        ),
        data@.len() == size.spec_height() * (4 * size.spec_width()),
{
    let width: u32 = size.width();
    let height: u32 = size.height();
    pack_rows(source, row_pitch, width as usize * 4, height)
}

/// What the standard library reads out of UTF-16 units, each unpaired surrogate replaced.
pub uninterp spec fn utf16_text(units: Seq<u16>) -> Seq<char>;

/// Calls `String::from_utf16_lossy` of the standard library. The contract names its result, which
/// depends on the units alone.
#[verifier::external_body]
fn text_from_utf16(units: &[u16]) -> (text: String)
    ensures
        text@ == utf16_text(units@),
{
    String::from_utf16_lossy(units)
}

/// The units before the first that is zero.
pub open spec fn before_zero(units: Seq<u16>) -> Seq<u16>
    decreases units.len(),
{
    if units.len() == 0 || units[0] == 0 {
        Seq::empty()
    } else {
        seq![units[0]] + before_zero(units.drop_first())
    }
}

/// How many units stand before the first that is zero.
fn zero_position(units: &[u16]) -> (end: usize)
    ensures
        end <= units@.len(),
        before_zero(units@) == units@.take(end as int),
{
    let mut end: usize = 0;
    assert(units@.skip(0) =~= units@);
    assert(units@.take(0) + before_zero(units@.skip(0)) =~= before_zero(units@));
    while end < units.len() && units[end] != 0
        invariant
            end <= units@.len(),
            before_zero(units@) == units@.take(end as int) + before_zero(units@.skip(end as int)),
        decreases units@.len() - end,
    {
        proof {
            let rest = units@.skip(end as int);
            assert(rest[0] == units@[end as int]);
            assert(rest.drop_first() =~= units@.skip(end + 1));
            assert(units@.take(end as int) + before_zero(rest) =~= units@.take(end + 1)
                + before_zero(units@.skip(end + 1)));
        }
        end = end + 1;
    }
    proof {
        let rest = units@.skip(end as int);
        if end < units@.len() {
            assert(rest[0] == units@[end as int]);
        }
        assert(before_zero(rest) =~= Seq::empty());
        assert(units@.take(end as int) + before_zero(rest) =~= units@.take(end as int));
    }
    end
}

/// The text of UTF-16 units that end with a zero.
pub fn utf16_name(units: &[u16]) -> (name: String)
    ensures
        name@ == utf16_text(before_zero(units@)),
{
    let end: usize = zero_position(units);
    text_from_utf16(vstd::slice::slice_subrange(units, 0, end))
}

/// What is known of a display.
pub struct OutputDescription {
    pub attached: bool,
    pub rotated: bool,
    pub name: Vec<u16>,
}

/// Why a display cannot be captured, if it cannot.
pub open spec fn output_refusal(index: u32, attached: bool, rotated: bool) -> Option<DcErrorView> {
    if !attached {
        Some(
            DcErrorView::Platform(
                "DXGI output "@ + decimal(index as nat) + " is not attached to the desktop"@,
            ),
        )
    } else if rotated {
        Some(
            DcErrorView::Unsupported(
                "rotated DXGI output "@ + decimal(index as nat) + " is not supported yet"@,
            ),
        )
    } else {
        None
    }
}

/// The capture of one display: which one it is, how long a capture waits, and the number of the
/// next frame.
pub struct WindowsDesktopCapturer {
    output_index: u32,
    output_name: String,
    timeout_ms: u32,
    sequence: u64,
}

/// The contents of a [`WindowsDesktopCapturer`].
pub struct CapturerState {
    pub output_index: u32,
    pub output_name: Seq<char>,
    pub timeout_ms: u32,
    pub sequence: u64,
}

impl View for WindowsDesktopCapturer {
    type V = CapturerState;

    closed spec fn view(&self) -> CapturerState {
        CapturerState {
            output_index: self.output_index,
            output_name: self.output_name@,
            timeout_ms: self.timeout_ms,
            sequence: self.sequence,
        }
    }
}

impl WindowsDesktopCapturer {
    pub fn new(output_index: u32, timeout_ms: u32, output: &OutputDescription) -> (result: Result<
        WindowsDesktopCapturer,
        DcError,
    >)
        ensures
            match result {
                Ok(capturer) => {
                    &&& output_refusal(output_index, output.attached, output.rotated) is None
                    &&& capturer@ == (CapturerState {
                        output_index,
                        output_name: utf16_text(before_zero(output.name@)),
                        timeout_ms,
                        sequence: 0,
                    })
                },
                Err(error) => output_refusal(output_index, output.attached, output.rotated) == Some(
                    error@,
                ),
            },
    {
        if !output.attached {
            let number = decimal_text(output_index as u64);
            let message = joined("DXGI output ", number.as_str());
            return Err(
                DcError::Platform(joined(message.as_str(), " is not attached to the desktop")),
            );
        }
        if output.rotated {
            let number = decimal_text(output_index as u64);
            let message = joined("rotated DXGI output ", number.as_str());
            return Err(DcError::Unsupported(joined(message.as_str(), " is not supported yet")));
        }
        Ok(
            WindowsDesktopCapturer {
                output_index,
                output_name: utf16_name(output.name.as_slice()),
                timeout_ms,
                sequence: 0,
            },
        )
    }

    pub fn output_index(&self) -> (index: u32)
        ensures
            index == self@.output_index,
    {
        self.output_index
    }

    pub fn output_name(&self) -> (name: &str)
        ensures
            name@ == self@.output_name,
    {
        self.output_name.as_str()
    }

    /// The failure of a capture that waited for its whole time.
    pub fn timed_out(&self) -> (error: DcError)
        ensures
            error@ == DcErrorView::Timeout(
                "timed out after "@ + decimal(self@.timeout_ms as nat)
                    + " ms waiting for desktop frame"@,
            ),
    {
        let number = decimal_text(self.timeout_ms as u64);
        let message = joined("timed out after ", number.as_str());
        DcError::Timeout(joined(message.as_str(), " ms waiting for desktop frame"))
    }

    /// Makes a frame of captured pixels and numbers it. The number is used up even where the
    /// pixels or the damage do not fit.
    pub fn frame(
        &mut self,
        timestamp: Duration,
        layout: FrameLayout,
        data: Vec<u8>,
        metadata: FrameMetadata,
    ) -> (result: Result<VideoFrame, DcError>)
        ensures
            final(self)@ == (CapturerState {
                sequence: old(self)@.sequence.wrapping_add(1),
                ..old(self)@
            }),
            captures(old(self)@.sequence, timestamp, layout, data@, metadata@, result),
    {
        let sequence: u64 = self.sequence;
        self.sequence = self.sequence.wrapping_add(1);
        match VideoFrame::new(sequence, timestamp, layout, data) {
            Ok(frame) => frame.with_metadata(metadata),
            Err(error) => Err(error),
        }
    }
}

/// What becomes of captured pixels.
pub open spec fn captures(
    sequence: u64,
    timestamp: Duration,
    layout: FrameLayout,
    data: Seq<u8>,
    metadata: MetadataView,
    result: Result<VideoFrame, DcError>,
) -> bool {
    match result {
        Ok(frame) => frame@ == (FrameView { sequence, timestamp, layout, data, metadata })
            && data.len() == layout.data_len() && crate::media::frame::damage_inside(
            metadata,
            layout.width(),
            layout.height(),
        ),
        Err(error) => if data.len() != layout.data_len() {
            error@ == crate::media::frame::buffer_length_failure(
                data.len(),
                layout.data_len() as nat,
            )
        } else {
            &&& !crate::media::frame::damage_inside(metadata, layout.width(), layout.height())
            &&& error@ == DcErrorView::InvalidInput("damage rectangle is outside the frame"@)
        },
    }
}

/// Whether rectangles lie on the desktop.
pub open spec fn all_inside(rects: Seq<DamageRect>, width: u32, height: u32) -> bool {
    forall|i: int| 0 <= i < rects.len() ==> (#[trigger] rects[i]).inside(width, height)
}

/// The damage of a capture always lies on the desktop, whatever rectangles were reported.
pub proof fn law_captured_damage_lies_inside(
    dirty: Seq<ScreenRect>,
    moves: Seq<ScreenMove>,
    width: u32,
    height: u32,
)
    ensures
        all_inside(
            dirty_damage(dirty, width, height) + move_damage(moves, width, height),
            width,
            height,
        ),
{
    lemma_dirty_inside(dirty, width, height);
    lemma_moves_inside(moves, width, height);
    lemma_both_inside(
        dirty_damage(dirty, width, height),
        move_damage(moves, width, height),
        width,
        height,
    );
}

proof fn lemma_both_inside(
    first: Seq<DamageRect>,
    second: Seq<DamageRect>,
    width: u32,
    height: u32,
)
    requires
        all_inside(first, width, height),
        all_inside(second, width, height),
    ensures
        all_inside(first + second, width, height),
{
    assert forall|i: int| 0 <= i < (first + second).len() implies (#[trigger] (first
        + second)[i]).inside(width, height) by {
        if i < first.len() {
            assert(first[i].inside(width, height));
        } else {
            assert(second[i - first.len()].inside(width, height));
        }
    }
}

proof fn lemma_dirty_inside(dirty: Seq<ScreenRect>, width: u32, height: u32)
    ensures
        all_inside(dirty_damage(dirty, width, height), width, height),
    decreases dirty.len(),
{
    if dirty.len() > 0 {
        lemma_dirty_inside(dirty.drop_last(), width, height);
        lemma_both_inside(
            dirty_damage(dirty.drop_last(), width, height),
            some_damage(damage_of(dirty.last(), width, height)),
            width,
            height,
        );
    }
}

proof fn lemma_moves_inside(moves: Seq<ScreenMove>, width: u32, height: u32)
    ensures
        all_inside(move_damage(moves, width, height), width, height),
    decreases moves.len(),
{
    if moves.len() > 0 {
        lemma_moves_inside(moves.drop_last(), width, height);
        lemma_both_inside(
            move_damage(moves.drop_last(), width, height),
            damage_of_move(moves.last(), width, height),
            width,
            height,
        );
    }
}

/// Of a part of the screen that changed, those pixels count as damaged that lie on the desktop, and no
/// others.
pub proof fn law_damage_is_what_lies_on_the_desktop(
    rect: ScreenRect,
    width: u32,
    height: u32,
    x: int,
    y: int,
)
    ensures
        ({
            let damage = damage_of(rect, width, height);
            let hit = rect.left <= x && x < rect.right && rect.top <= y && y < rect.bottom && 0 <= x
                && x < width && 0 <= y && y < height;
            &&& hit ==> damage is Some
            &&& damage is Some ==> (hit <==> damage->Some_0.x <= x && x < damage->Some_0.x
                + damage->Some_0.width && damage->Some_0.y <= y && y < damage->Some_0.y
                + damage->Some_0.height)
        }),
{
}

/// The damage of many parts is the damage of each, in their order: of each part that changed, and of
/// each that was moved where it came from and where it went.
pub proof fn law_damage_adds_up(
    dirty: Seq<ScreenRect>,
    rect: ScreenRect,
    moves: Seq<ScreenMove>,
    movement: ScreenMove,
    width: u32,
    height: u32,
)
    ensures
        dirty_damage(Seq::empty(), width, height).len() == 0,
        move_damage(Seq::empty(), width, height).len() == 0,
        damage_of(rect, width, height) is None ==> dirty_damage(dirty.push(rect), width, height)
            == dirty_damage(dirty, width, height),
        damage_of(rect, width, height) matches Some(damage) ==> dirty_damage(
            dirty.push(rect),
            width,
            height,
        ) == dirty_damage(dirty, width, height).push(damage),
        move_damage(moves.push(movement), width, height) == move_damage(moves, width, height)
            + damage_of_move(movement, width, height),
{
    assert(dirty.push(rect).drop_last() =~= dirty);
    assert(moves.push(movement).drop_last() =~= moves);
}

/// A part that was moved onto the desktop is damaged where it went, and where it came from as far as
/// that lies on the desktop.
pub proof fn law_moved_parts_are_damaged_at_both_ends(
    movement: ScreenMove,
    width: u32,
    height: u32,
    x: int,
    y: int,
)
    ensures
        ({
            let damage = damage_of_move(movement, width, height);
            let there = damage_of(movement.destination, width, height);
            &&& there is None ==> damage.len() == 0
            &&& there is Some ==> {
                let region = there->Some_0;
                let source = movement.source_x <= x && x < movement.source_x + region.width
                    && movement.source_y <= y && y < movement.source_y + region.height && 0 <= x && x
                    < width && 0 <= y && y < height;
                &&& damage.last() == region
                &&& source ==> damage.len() == 2
                &&& damage.len() == 2 ==> (source <==> damage[0].x <= x && x < damage[0].x
                    + damage[0].width && damage[0].y <= y && y < damage[0].y + damage[0].height)
                &&& 1 <= damage.len() <= 2
            }
        }),
{
}

/// The cursor's shape is the pointer's: kind 1 is a pair of masks, one above the other, so that it is
/// half as high; 2 has colors and 4 colors with a mask; others are not known. A hotspot outside on the
/// left or above counts as the edge.
pub proof fn law_pointer_shapes_are_taken_over(
    shape_type: u32,
    width: u32,
    height: u32,
    pitch: u32,
    hotspot_x: i32,
    hotspot_y: i32,
    data: Seq<u8>,
    count: int,
)
    requires
        0 <= count,
    ensures
        ({
            let given = shape_of_pointer(
                shape_type,
                width,
                height,
                pitch,
                hotspot_x,
                hotspot_y,
                data,
            );
            &&& given is Ok <==> shape_type == 1 || shape_type == 2 || shape_type == 4
            &&& given is Ok ==> {
                let shape = given->Ok_0;
                &&& shape.kind == CursorShapeKind::Monochrome <==> shape_type == 1
                &&& shape.kind == CursorShapeKind::Color <==> shape_type == 2
                &&& shape.kind == CursorShapeKind::MaskedColor <==> shape_type == 4
                &&& shape.width == width
                &&& shape_type == 1 ==> shape.height == height / 2
                &&& shape_type != 1 ==> shape.height == height
                &&& hotspot_x >= 0 ==> shape.hotspot_x == hotspot_x
                &&& hotspot_x < 0 ==> shape.hotspot_x == 0
                &&& hotspot_y >= 0 ==> shape.hotspot_y == hotspot_y
                &&& hotspot_y < 0 ==> shape.hotspot_y == 0
                &&& shape.pitch == pitch
                &&& shape.data == data
            }
        }),
        count <= data.len() ==> truncated(data, count) == data.take(count),
        count >= data.len() ==> truncated(data, count) == data,
{
    if count == data.len() {
        assert(data.take(count) =~= data);
    }
}

/// An output can be captured exactly where it is attached and not rotated.
pub proof fn law_upright_attached_outputs_are_captured(index: u32, attached: bool, rotated: bool)
    ensures
        output_refusal(index, attached, rotated) is None <==> attached && !rotated,
{
}

/// The cursor is told of where the mouse moved or the cursor looks different, and only then.
pub proof fn law_cursor_is_told_when_it_changed(last_mouse_update: i64, reshaped: bool)
    ensures
        cursor_told(last_mouse_update, true),
        cursor_told(last_mouse_update, false) <==> last_mouse_update != 0,
{
}

/// A name ends in front of its first zero.
pub proof fn law_names_end_at_zero(units: Seq<u16>)
    ensures
        before_zero(units).len() <= units.len(),
        before_zero(units) == units.take(before_zero(units).len() as int),
        forall|i: int| 0 <= i < before_zero(units).len() ==> #[trigger] units[i] != 0,
        before_zero(units).len() < units.len() ==> units[before_zero(units).len() as int] == 0,
    decreases units.len(),
{
    if units.len() > 0 && units[0] != 0 {
        let rest = units.drop_first();
        law_names_end_at_zero(rest);
        let name = before_zero(units);
        assert forall|i: int| 0 <= i < name.len() implies #[trigger] units[i] != 0 by {
            if i > 0 {
                assert(rest[i - 1] == units[i]);
            }
        }
        assert(name =~= units.take(name.len() as int)) by {
            assert forall|i: int| 0 <= i < name.len() implies name[i] == #[trigger] units[i] by {
                if i > 0 {
                    assert(name[i] == before_zero(rest)[i - 1]);
                    assert(rest.take(before_zero(rest).len() as int)[i - 1] == rest[i - 1]);
                }
            }
        }
        if name.len() < units.len() {
            assert(rest[name.len() - 1] == units[name.len() as int]);
        }
    } else {
        assert(units.take(0) =~= Seq::empty());
    }
}

/// A mapped desktop holds each of its pixels: the four bytes of a pixel stand in its row, behind the
/// rows above it, and the last row ends with the last byte.
pub proof fn law_mapped_desktop_holds_its_pixels(
    row_pitch: int,
    width: int,
    height: int,
    x: int,
    y: int,
)
    requires
        0 <= x < width,
        0 <= y < height,
    ensures
        mapped_bytes(row_pitch, width, height) matches Some(bytes) ==> {
            &&& 0 <= y * row_pitch + 4 * x
            &&& y * row_pitch + 4 * x + 4 <= (y + 1) * row_pitch <= bytes
            &&& bytes == height * row_pitch
        },
        row_pitch >= 4 * width && height * row_pitch <= usize::MAX ==> mapped_bytes(
            row_pitch,
            width,
            height,
        ) is Some,
{
    assert(height * row_pitch == row_pitch * height) by (nonlinear_arith);
    assert((y + 1) * row_pitch == y * row_pitch + row_pitch) by (nonlinear_arith);
    if row_pitch >= 4 * width {
        assert(0 <= y * row_pitch && (y + 1) * row_pitch <= height * row_pitch)
            by (nonlinear_arith)
            requires
                0 <= y < height,
                row_pitch >= 0,
        ;
    }
}

} // verus!
