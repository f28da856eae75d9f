//! Frames, their layout in memory and the metadata of a capture.
use crate::error::{DcError, DcErrorView};
use crate::text::{decimal, decimal_text, joined};
use crate::time::Duration;
use vstd::prelude::*;

verus! {

#[derive(Clone, Copy, Debug, Eq, PartialEq, Structural)]
pub struct DamageRect {
    pub x: u32,
    pub y: u32,
    pub width: u32,
    pub height: u32,
}

impl DamageRect {
    /// The rectangle is not empty and lies inside a frame of the given size.
    pub open spec fn inside(self, width: u32, height: u32) -> bool {
        &&& self.width > 0
        &&& self.height > 0
        &&& self.x + self.width <= width
        &&& self.y + self.height <= height
    }

    /// The pixel at column `x` of row `y` lies in the rectangle.
    pub open spec fn covers(self, x: int, y: int) -> bool {
        &&& self.x <= x < self.x + self.width
        &&& self.y <= y < self.y + self.height
    }

    /// Tells whether the rectangle is not empty and lies inside a frame of the given size.
    pub fn is_inside(&self, width: u32, height: u32) -> (result: bool)
        ensures
            result == self.inside(width, height),
    {
        self.width > 0 && self.height > 0 && self.width <= width && self.height <= height && self.x
            <= width - self.width && self.y <= height - self.height
    }
}

#[derive(Clone, Copy, Debug, Eq, PartialEq, Structural)]
pub enum CursorShapeKind {
    Monochrome,
    Color,
    MaskedColor,
}

#[derive(Clone, Debug, Eq, PartialEq)]
pub struct CursorShape {
    pub kind: CursorShapeKind,
    pub width: u32,
    pub height: u32,
    pub hotspot_x: u32,
    pub hotspot_y: u32,
    pub pitch: u32,
    pub data: Vec<u8>,
}

#[derive(Clone, Debug, Eq, PartialEq)]
pub struct CursorUpdate {
    pub visible: bool,
    pub x: i32,
    pub y: i32,
    pub shape: Option<CursorShape>,
}

#[derive(Clone, Debug, Eq, PartialEq)]
pub struct FrameMetadata {
    /// `Some` means the source supplied authoritative damage metadata. An
    /// empty vector therefore means a cursor-only or unchanged desktop frame.
    pub damage: Option<Vec<DamageRect>>,
    pub cursor: Option<CursorUpdate>,
}

impl Default for FrameMetadata {
    fn default() -> (result: Self)
        ensures
            result@ == no_metadata(),
    {
        FrameMetadata { damage: None, cursor: None }
    }
}

/// The contents of a [`CursorShape`].
pub struct CursorShapeView {
    pub kind: CursorShapeKind,
    pub width: u32,
    pub height: u32,
    pub hotspot_x: u32,
    pub hotspot_y: u32,
    pub pitch: u32,
    pub data: Seq<u8>,
}

impl View for CursorShape {
    type V = CursorShapeView;

    open spec fn view(&self) -> CursorShapeView {
        CursorShapeView {
            kind: self.kind,
            width: self.width,
            height: self.height,
            hotspot_x: self.hotspot_x,
            hotspot_y: self.hotspot_y,
            pitch: self.pitch,
            data: self.data@,
        }
    }
}

/// The contents of a [`CursorUpdate`].
pub struct CursorUpdateView {
    pub visible: bool,
    pub x: i32,
    pub y: i32,
    pub shape: Option<CursorShapeView>,
}

impl View for CursorUpdate {
    type V = CursorUpdateView;

    open spec fn view(&self) -> CursorUpdateView {
        CursorUpdateView {
            visible: self.visible,
            x: self.x,
            y: self.y,
            shape: match self.shape {
                Some(shape) => Some(shape@),
                None => None,
            },
        }
    }
}

/// The contents of a [`FrameMetadata`].
pub struct MetadataView {
    pub damage: Option<Seq<DamageRect>>,
    pub cursor: Option<CursorUpdateView>,
}

impl View for FrameMetadata {
    type V = MetadataView;

    open spec fn view(&self) -> MetadataView {
        MetadataView {
            damage: match self.damage {
                Some(rects) => Some(rects@),
                None => None,
            },
            cursor: match self.cursor {
                Some(cursor) => Some(cursor@),
                None => None,
            },
        }
    }
}

/// Neither damage nor a cursor.
pub open spec fn no_metadata() -> MetadataView {
    MetadataView { damage: None, cursor: None }
}

/// Every damage rectangle lies inside a frame of the given size.
pub open spec fn damage_inside(metadata: MetadataView, width: u32, height: u32) -> bool {
    metadata.damage matches Some(rects) ==> forall|i: int|
        0 <= i < rects.len() ==> (#[trigger] rects[i]).inside(width, height)
}

#[derive(Clone, Copy, Debug, Eq, PartialEq, Structural)]
pub enum PixelFormat {
    Rgb24,
    Bgra32,
    I420,
}

impl PixelFormat {
    /// The bytes of one pixel in a packed format; none for a planar one.
    pub open spec fn pixel_bytes(self) -> Option<usize> {
        match self {
            PixelFormat::Rgb24 => Some(3),
            PixelFormat::Bgra32 => Some(4),
            PixelFormat::I420 => None,
        }
    }

    pub fn packed_bytes_per_pixel(self) -> (result: Option<usize>)
        ensures
            result == self.pixel_bytes(),
    {
        match self {
            PixelFormat::Rgb24 => Some(3),
            PixelFormat::Bgra32 => Some(4),
            PixelFormat::I420 => None,
        }
    }
}

/// The width and the height of a frame; neither is zero.
#[derive(Clone, Copy, Debug, Eq, PartialEq, Structural)]
pub struct FrameSize {
    width: u32,
    height: u32,
}

impl FrameSize {
    #[verifier::type_invariant]
    spec fn nonzero(self) -> bool {
        self.width > 0 && self.height > 0
    }

    pub closed spec fn spec_width(self) -> u32 {
        self.width
    }

    pub closed spec fn spec_height(self) -> u32 {
        self.height
    }

    pub fn new(width: u32, height: u32) -> (result: Result<Self, DcError>)
        ensures
            match result {
                Ok(size) => width > 0 && height > 0 && size.width() == width && size.height()
                    == height,
                Err(e) => (width == 0 || height == 0) && e@ == DcErrorView::InvalidInput(
                    "frame width and height must be non-zero"@,
                ),
            },
    {
        if width == 0 || height == 0 {
            return Err(DcError::invalid_input("frame width and height must be non-zero"));
        }
        Ok(FrameSize { width, height })
    }

    #[verifier::when_used_as_spec(spec_width)]
    pub fn width(self) -> (result: u32)
        ensures
            result == self.width(),
            result > 0,
    {
        proof {
            use_type_invariant(&self);
        }
        self.width
    }

    #[verifier::when_used_as_spec(spec_height)]
    pub fn height(self) -> (result: u32)
        ensures
            result == self.height(),
            result > 0,
    {
        proof {
            use_type_invariant(&self);
        }
        self.height
    }
}

/// How the pixels of a frame lie in its buffer: packed rows, each `stride` bytes long.
#[derive(Clone, Copy, Debug, Eq, PartialEq, Structural)]
pub struct FrameLayout {
    size: FrameSize,
    pixel_format: PixelFormat,
    stride: usize,
    data_len: usize,
}

/// The bytes of one row without padding.
pub open spec fn row_bytes(width: u32, pixel_format: PixelFormat) -> int {
    match pixel_format {
        PixelFormat::Rgb24 => 3 * width,
        PixelFormat::Bgra32 => 4 * width,
        PixelFormat::I420 => 0,
    }
}

/// Why a layout with the given stride is refused, if it is.
pub open spec fn layout_failure(
    width: u32,
    height: u32,
    pixel_format: PixelFormat,
    stride: int,
) -> Option<DcErrorView> {
    if pixel_format == PixelFormat::I420 {
        Some(DcErrorView::Unsupported("I420 requires explicit plane layout support"@))
    } else if row_bytes(width, pixel_format) > usize::MAX {
        Some(DcErrorView::InvalidInput("frame row size overflows usize"@))
    } else if stride < row_bytes(width, pixel_format) {
        Some(
            DcErrorView::InvalidInput(
                "frame stride "@ + decimal(stride as nat)
                    + " is smaller than packed row size "@ + decimal(
                    row_bytes(width, pixel_format) as nat,
                ),
            ),
        )
    } else if stride * height > usize::MAX {
        Some(DcErrorView::InvalidInput("frame buffer size overflows usize"@))
    } else {
        None
    }
}

impl FrameLayout {
    #[verifier::type_invariant]
    spec fn inv(self) -> bool {
        self.valid()
    }

    /// The rows fit their stride and the buffer holds exactly the rows.
    pub closed spec fn valid(self) -> bool {
        &&& self.size.width > 0
        &&& self.size.height > 0
        &&& self.pixel_format != PixelFormat::I420
        &&& row_bytes(self.size.width, self.pixel_format) <= self.stride
        &&& self.data_len == self.stride * self.size.height
    }

    /// What a valid layout guarantees.
    pub open spec fn facts(self) -> bool {
        &&& self.width() > 0
        &&& self.height() > 0
        &&& self.pixel_format() != PixelFormat::I420
        &&& row_bytes(self.width(), self.pixel_format()) <= self.stride()
        &&& self.data_len() == self.stride() * self.height()
        &&& layout_failure(
            self.width(),
            self.height(),
            self.pixel_format(),
            self.stride() as int,
        ) is None
    }

    /// The width of the frame in pixels.
    pub closed spec fn width(self) -> u32 {
        self.size.width
    }

    /// The height of the frame in pixels.
    pub closed spec fn height(self) -> u32 {
        self.size.height
    }

    pub closed spec fn spec_size(self) -> FrameSize {
        self.size
    }

    pub closed spec fn spec_pixel_format(self) -> PixelFormat {
        self.pixel_format
    }

    pub closed spec fn spec_stride(self) -> usize {
        self.stride
    }

    pub closed spec fn spec_data_len(self) -> usize {
        self.data_len
    }

    pub fn packed(size: FrameSize, pixel_format: PixelFormat) -> (result: Result<Self, DcError>)
        ensures
            ({
                let stride = row_bytes(size.width(), pixel_format);
                match result {
                    Ok(layout) => {
                        &&& layout_failure(
                            size.width(),
                            size.height(),
                            pixel_format,
                            stride,
                        ) is None
                        &&& layout.size() == size
                        &&& layout.pixel_format() == pixel_format
                        &&& layout.stride() == stride
                        &&& layout.width() == size.width()
                        &&& layout.height() == size.height()
                        &&& layout.facts()
                    },
                    Err(e) => layout_failure(
                        size.width(),
                        size.height(),
                        pixel_format,
                        stride,
                    ) == Some(e@),
                }
            }),
    {
        let bytes_per_pixel: usize = match pixel_format.packed_bytes_per_pixel() {
            Some(bytes) => bytes,
            None => {
                return Err(
                    DcError::unsupported("I420 requires explicit plane layout support"),
                );
            },
        };
        let width: usize = size.width() as usize;
        let stride: usize = match width.checked_mul(bytes_per_pixel) {
            Some(stride) => stride,
            None => {
                return Err(DcError::invalid_input("frame row size overflows usize"));
            },
        };
        FrameLayout::with_stride(size, pixel_format, stride)
    }

    pub fn with_stride(size: FrameSize, pixel_format: PixelFormat, stride: usize) -> (result: Result<
        Self,
        DcError,
    >)
        ensures
            match result {
                Ok(layout) => {
                    &&& layout_failure(
                        size.width(),
                        size.height(),
                        pixel_format,
                        stride as int,
                    ) is None
                    &&& layout.size() == size
                    &&& layout.pixel_format() == pixel_format
                    &&& layout.stride() == stride
                    &&& layout.width() == size.width()
                    &&& layout.height() == size.height()
                    &&& layout.facts()
                },
                Err(e) => layout_failure(
                    size.width(),
                    size.height(),
                    pixel_format,
                    stride as int,
                ) == Some(e@),
            },
    {
        proof {
            use_type_invariant(&size);
        }
        let bytes_per_pixel: usize = match pixel_format.packed_bytes_per_pixel() {
            Some(bytes) => bytes,
            None => {
                return Err(
                    DcError::unsupported("I420 requires explicit plane layout support"),
                );
            },
        };
        let width: usize = size.width() as usize;
        let minimum_stride: usize = match width.checked_mul(bytes_per_pixel) {
            Some(minimum) => minimum,
            None => {
                return Err(DcError::invalid_input("frame row size overflows usize"));
            },
        };
        if stride < minimum_stride {
            let given = decimal_text(stride as u64);
            let minimum = decimal_text(minimum_stride as u64);
            let message = joined("frame stride ", given.as_str());
            let message = joined(message.as_str(), " is smaller than packed row size ");
            let message = joined(message.as_str(), minimum.as_str());
            return Err(DcError::InvalidInput(message));
        }
        let height: usize = size.height() as usize;
        let data_len: usize = match stride.checked_mul(height) {
            Some(data_len) => data_len,
            None => {
                return Err(DcError::invalid_input("frame buffer size overflows usize"));
            },
        };
        Ok(FrameLayout { size, pixel_format, stride, data_len })
    }

    #[verifier::when_used_as_spec(spec_size)]
    pub fn size(self) -> (result: FrameSize)
        ensures
            result == self.size(),
            result.width() == self.width(),
            result.height() == self.height(),
            self.facts(),
    {
        proof {
            use_type_invariant(&self);
        }
        self.size
    }

    #[verifier::when_used_as_spec(spec_pixel_format)]
    pub fn pixel_format(self) -> (result: PixelFormat)
        ensures
            result == self.pixel_format(),
            self.facts(),
    {
        proof {
            use_type_invariant(&self);
        }
        self.pixel_format
    }

    #[verifier::when_used_as_spec(spec_stride)]
    pub fn stride(self) -> (result: usize)
        ensures
            result == self.stride(),
            self.facts(),
    {
        proof {
            use_type_invariant(&self);
        }
        self.stride
    }

    #[verifier::when_used_as_spec(spec_data_len)]
    pub fn data_len(self) -> (result: usize)
        ensures
            result == self.data_len(),
            self.facts(),
    {
        proof {
            use_type_invariant(&self);
        }
        self.data_len
    }
}

/// Two valid layouts with the same size, format and stride are the same.
pub proof fn lemma_same_layout(a: FrameLayout, b: FrameLayout)
    requires
        a.facts(),
        b.facts(),
        a.width() == b.width(),
        a.height() == b.height(),
        a.pixel_format() == b.pixel_format(),
        a.stride() == b.stride(),
    ensures
        a == b,
{
}

/// One frame: its place in the capture, its pixels and what the capture said about it.
#[derive(Debug, Eq, PartialEq)]
pub struct VideoFrame {
    sequence: u64,
    timestamp: Duration,
    layout: FrameLayout,
    data: Vec<u8>,
    metadata: FrameMetadata,
}

/// The contents of a [`VideoFrame`].
pub struct FrameView {
    pub sequence: u64,
    pub timestamp: Duration,
    pub layout: FrameLayout,
    pub data: Seq<u8>,
    pub metadata: MetadataView,
}

impl FrameView {
    /// The layout is valid, the buffer has its length and the damage lies inside the frame.
    pub open spec fn facts(self) -> bool {
        &&& self.layout.facts()
        &&& self.data.len() == self.layout.data_len()
        &&& damage_inside(self.metadata, self.layout.width(), self.layout.height())
    }
}

impl View for VideoFrame {
    type V = FrameView;

    closed spec fn view(&self) -> FrameView {
        FrameView {
            sequence: self.sequence,
            timestamp: self.timestamp,
            layout: self.layout,
            data: self.data@,
            metadata: self.metadata@,
        }
    }
}

/// The failure for a buffer that does not fit its layout.
pub open spec fn buffer_length_failure(given: nat, expected: nat) -> DcErrorView {
    DcErrorView::InvalidInput(
        "frame buffer has "@ + decimal(given) + " bytes, expected "@ + decimal(expected),
    )
}

impl VideoFrame {
    #[verifier::type_invariant]
    spec fn inv(self) -> bool {
        self@.facts()
    }

    pub fn new(
        sequence: u64,
        timestamp: Duration,
        layout: FrameLayout,
        data: Vec<u8>,
    ) -> (result: Result<Self, DcError>)
        ensures
            match result {
                Ok(frame) => frame@ == (FrameView {
                    sequence,
                    timestamp,
                    layout,
                    data: data@,
                    metadata: no_metadata(),
                }) && frame@.facts(),
                Err(e) => data@.len() != layout.data_len() && e@ == buffer_length_failure(
                    data@.len(),
                    layout.data_len() as nat,
                ),
            },
    {
        if data.len() != layout.data_len() {
            let given = decimal_text(data.len() as u64);
            let expected = decimal_text(layout.data_len() as u64);
            let message = joined("frame buffer has ", given.as_str());
            let message = joined(message.as_str(), " bytes, expected ");
            let message = joined(message.as_str(), expected.as_str());
            return Err(DcError::InvalidInput(message));
        }
        Ok(
            VideoFrame { sequence, timestamp, layout, data, metadata: FrameMetadata::default() },
        )
    }

    /// The frame with the given metadata; refused where a damage rectangle is empty or reaches
    /// outside the frame.
    pub fn with_metadata(self, metadata: FrameMetadata) -> (result: Result<Self, DcError>)
        ensures
            match result {
                Ok(frame) => frame@ == (FrameView { metadata: metadata@, ..self@ })
                    && frame@.facts() && damage_inside(
                    metadata@,
                    self@.layout.width(),
                    self@.layout.height(),
                ),
                Err(e) => !damage_inside(
                    metadata@,
                    self@.layout.width(),
                    self@.layout.height(),
                ) && e@ == DcErrorView::InvalidInput("damage rectangle is outside the frame"@),
            },
    {
        proof {
            use_type_invariant(&self);
        }
        let size = self.layout.size();
        let width: u32 = size.width();
        let height: u32 = size.height();
        if let Some(rects) = &metadata.damage {
            let mut index: usize = 0;
            while index < rects.len()
                invariant
                    index <= rects@.len(),
                    metadata@.damage == Some(rects@),
                    width == self@.layout.width(),
                    height == self@.layout.height(),
                    forall|i: int| 0 <= i < index ==> (#[trigger] rects@[i]).inside(width, height),
                decreases rects@.len() - index,
            {
                if !rects[index].is_inside(width, height) {
                    assert(!(metadata@.damage->Some_0)[index as int].inside(width, height));
                    assert(!damage_inside(metadata@, width, height));
                    return Err(DcError::invalid_input("damage rectangle is outside the frame"));
                }
                index = index + 1;
            }
        }
        Ok(
            VideoFrame {
                sequence: self.sequence,
                timestamp: self.timestamp,
                layout: self.layout,
                data: self.data,
                metadata,
            },
        )
    }

    pub fn sequence(&self) -> (result: u64)
        ensures
            result == self@.sequence,
            self@.facts(),
    {
        proof {
            use_type_invariant(self);
        }
        self.sequence
    }

    pub fn timestamp(&self) -> (result: Duration)
        ensures
            result == self@.timestamp,
    {
        self.timestamp
    }

    pub fn layout(&self) -> (result: FrameLayout)
        ensures
            result == self@.layout,
            self@.facts(),
    {
        proof {
            use_type_invariant(self);
        }
        self.layout
    }

    pub fn data(&self) -> (result: &[u8])
        ensures
            result@ == self@.data,
            self@.facts(),
    {
        proof {
            use_type_invariant(self);
        }
        self.data.as_slice()
    }

    pub fn metadata(&self) -> (result: &FrameMetadata)
        ensures
            result@ == self@.metadata,
            self@.facts(),
    {
        proof {
            use_type_invariant(self);
        }
        &self.metadata
    }

    pub fn into_data(self) -> (result: Vec<u8>)
        ensures
            result@ == self@.data,
            self@.facts(),
    {
        proof {
            use_type_invariant(&self);
        }
        self.data
    }
}

pub(crate) fn copy_shape(shape: &CursorShape) -> (result: CursorShape)
    ensures
        result@ == shape@,
{
    CursorShape {
        kind: shape.kind,
        width: shape.width,
        height: shape.height,
        hotspot_x: shape.hotspot_x,
        hotspot_y: shape.hotspot_y,
        pitch: shape.pitch,
        data: vstd::slice::slice_to_vec(shape.data.as_slice()),
    }
}

pub(crate) fn copy_cursor(cursor: &CursorUpdate) -> (result: CursorUpdate)
    ensures
        result@ == cursor@,
{
    let shape = match &cursor.shape {
        Some(shape) => Some(copy_shape(shape)),
        None => None,
    };
    CursorUpdate { visible: cursor.visible, x: cursor.x, y: cursor.y, shape }
}

pub(crate) fn copy_metadata(metadata: &FrameMetadata) -> (result: FrameMetadata)
    ensures
        result@ == metadata@,
{
    let damage = match &metadata.damage {
        Some(rects) => Some(vstd::slice::slice_to_vec(rects.as_slice())),
        None => None,
    };
    let cursor = match &metadata.cursor {
        Some(cursor) => Some(copy_cursor(cursor)),
        None => None,
    };
    FrameMetadata { damage, cursor }
}

impl Clone for VideoFrame {
    fn clone(&self) -> (result: Self)
        ensures
            result@ == self@,
    {
        proof {
            use_type_invariant(self);
        }
        VideoFrame {
            sequence: self.sequence,
            timestamp: self.timestamp,
            layout: self.layout,
            data: vstd::slice::slice_to_vec(self.data.as_slice()),
            metadata: copy_metadata(&self.metadata),
        }
    }
}

/// A layout is accepted exactly where each row holds its pixels, three bytes each or four, and the
/// whole buffer can be addressed. Frames of separate planes are not.
pub proof fn law_layout_holds_its_rows(width: u32, height: u32, stride: usize)
    requires
        4 * width <= usize::MAX,
        stride * height <= usize::MAX,
    ensures
        layout_failure(width, height, PixelFormat::Bgra32, stride as int) is None <==> 4 * width
            <= stride,
        layout_failure(width, height, PixelFormat::Rgb24, stride as int) is None <==> 3 * width
            <= stride,
        layout_failure(width, height, PixelFormat::I420, stride as int) is Some,
        row_bytes(width, PixelFormat::Bgra32) == 4 * width,
        row_bytes(width, PixelFormat::Rgb24) == 3 * width,
        PixelFormat::Bgra32.pixel_bytes() == Some(4usize),
        PixelFormat::Rgb24.pixel_bytes() == Some(3usize),
        PixelFormat::I420.pixel_bytes() is None,
{
}

/// A buffer that cannot be addressed has no layout.
pub proof fn law_layout_fits_memory(
    width: u32,
    height: u32,
    pixel_format: PixelFormat,
    stride: usize,
)
    requires
        stride * height > usize::MAX,
    ensures
        layout_failure(width, height, pixel_format, stride as int) is Some,
{
}

/// A damaged rectangle belongs to a frame exactly where it is not empty and every one of its pixels
/// is a pixel of the frame.
pub proof fn law_damage_lies_on_the_frame(rect: DamageRect, width: u32, height: u32)
    ensures
        rect.inside(width, height) ==> forall|x: int, y: int| #[trigger]
            rect.covers(x, y) ==> 0 <= x < width && 0 <= y < height,
        rect.width > 0 && rect.height > 0 && (forall|x: int, y: int| #[trigger]
            rect.covers(x, y) ==> 0 <= x < width && 0 <= y < height) ==> rect.inside(width, height),
        rect.width == 0 || rect.height == 0 ==> !rect.inside(width, height),
        forall|x: int, y: int| #[trigger]
            rect.covers(x, y) <==> rect.x <= x && x < rect.x + rect.width && rect.y <= y && y
                < rect.y + rect.height,
{
    if rect.width > 0 && rect.height > 0 {
        assert(rect.covers(rect.x + rect.width - 1, rect.y + rect.height - 1));
    }
}

/// What a valid frame holds: its rows, as many as it is high, one stride apart.
pub proof fn law_frame_holds_its_rows(frame: FrameView)
    requires
        frame.facts(),
    ensures
        frame.layout.width() > 0,
        frame.layout.height() > 0,
        frame.data.len() == frame.layout.stride() * frame.layout.height(),
        frame.layout.pixel_format() == PixelFormat::Bgra32 || frame.layout.pixel_format()
            == PixelFormat::Rgb24,
        frame.layout.pixel_format() == PixelFormat::Bgra32 ==> 4 * frame.layout.width()
            <= frame.layout.stride(),
        frame.layout.pixel_format() == PixelFormat::Rgb24 ==> 3 * frame.layout.width()
            <= frame.layout.stride(),
        frame.metadata.damage matches Some(rects) ==> forall|i: int|
            0 <= i < rects.len() ==> {
                &&& (#[trigger] rects[i]).width > 0
                &&& rects[i].height > 0
                &&& rects[i].x + rects[i].width <= frame.layout.width()
                &&& rects[i].y + rects[i].height <= frame.layout.height()
            },
{
}

} // verus!
