//! Finding the changed parts of a desktop by comparing successive frames, in tiles of 64 by 64
//! pixels.
use crate::desktop::region::area_sum;
use crate::error::DcError;
use crate::media::frame::{row_bytes, DamageRect, FrameView, PixelFormat, VideoFrame};
use crate::media::output::lemma_row_in_buffer;
use crate::protocol::types::MAX_DESKTOP_REGIONS;
use vstd::prelude::*;

verus! {

/// Two buffers of the same layout: an earlier frame and the current one.
pub struct FramePair {
    pub previous: Seq<u8>,
    pub current: Seq<u8>,
    pub width: int,
    pub height: int,
    pub stride: int,
    pub pixel_bytes: int,
}

/// The smaller of two numbers.
pub open spec fn least(a: int, b: int) -> int {
    if a < b {
        a
    } else {
        b
    }
}

impl FramePair {
    /// Both buffers hold all rows, and a row fits its stride.
    pub open spec fn valid(self) -> bool {
        &&& 0 < self.width <= u32::MAX
        &&& 0 < self.height <= u32::MAX
        &&& 3 <= self.pixel_bytes <= 4
        &&& self.width * self.pixel_bytes <= self.stride
        &&& self.previous.len() == self.stride * self.height
        &&& self.current.len() == self.stride * self.height
    }

    /// Byte `column` of row `row` differs between the frames.
    pub open spec fn differs(self, row: int, column: int) -> bool {
        self.previous[row * self.stride + column] != self.current[row * self.stride + column]
    }

    /// Where the columns of a tile end, in pixels.
    pub open spec fn tile_right(self, tile_x: int) -> int {
        least(64 * tile_x + 64, self.width)
    }

    /// Where the rows of a tile end.
    pub open spec fn tile_bottom(self, tile_y: int) -> int {
        least(64 * tile_y + 64, self.height)
    }

    /// Byte `column` of row `row` belongs to a pixel of the tile.
    pub open spec fn in_tile(self, tile_x: int, tile_y: int, row: int, column: int) -> bool {
        &&& 64 * tile_y <= row < self.tile_bottom(tile_y)
        &&& 64 * tile_x * self.pixel_bytes <= column < self.tile_right(tile_x) * self.pixel_bytes
    }

    /// Some byte of the tile differs between the frames.
    pub open spec fn tile_changed(self, tile_x: int, tile_y: int) -> bool {
        exists|row: int, column: int| #[trigger]
            self.in_tile(tile_x, tile_y, row, column) && self.differs(row, column)
    }

    /// The number of tiles in a row of tiles.
    pub open spec fn tiles_x(self) -> int {
        (self.width + 63) / 64
    }

    /// The number of rows of tiles.
    pub open spec fn tiles_y(self) -> int {
        (self.height + 63) / 64
    }

    /// The rectangle over the tiles from `start` up to, but without, `end` in a row of tiles.
    pub open spec fn run_rect(self, start: int, end: int, tile_y: int) -> DamageRect {
        DamageRect {
            x: (64 * start) as u32,
            y: (64 * tile_y) as u32,
            width: (least(64 * end, self.width) - 64 * start) as u32,
            height: (self.tile_bottom(tile_y) - 64 * tile_y) as u32,
        }
    }

    /// The rectangles found in the first `count` tiles of a row, and the tile where a run of
    /// changed tiles that has not ended yet began. Behind the last tile every run ends.
    pub open spec fn scan(self, tile_y: int, count: nat) -> (Seq<DamageRect>, Option<int>)
        decreases count,
    {
        if count == 0 {
            (Seq::empty(), None)
        } else {
            let tile_x = count - 1;
            let (found, run) = self.scan(tile_y, tile_x as nat);
            let changed = tile_x < self.tiles_x() && self.tile_changed(tile_x, tile_y);
            match run {
                None => if changed {
                    (found, Some(tile_x))
                } else {
                    (found, None)
                },
                Some(start) => if changed {
                    (found, Some(start))
                } else {
                    (found.push(self.run_rect(start, tile_x, tile_y)), None)
                },
            }
        }
    }

    /// The rectangles of one row of tiles.
    pub open spec fn row_regions(self, tile_y: int) -> Seq<DamageRect> {
        self.scan(tile_y, (self.tiles_x() + 1) as nat).0
    }

    /// The rectangles of the first `rows` rows of tiles.
    pub open spec fn regions(self, rows: nat) -> Seq<DamageRect>
        decreases rows,
    {
        if rows == 0 {
            Seq::empty()
        } else {
            self.regions((rows - 1) as nat) + self.row_regions(rows - 1)
        }
    }
}

/// The smallest rectangle around two.
pub open spec fn around(a: DamageRect, b: DamageRect) -> DamageRect {
    let x = least(a.x as int, b.x as int);
    let y = least(a.y as int, b.y as int);
    let right = if a.x + a.width < b.x + b.width {
        b.x + b.width
    } else {
        a.x + a.width
    };
    let bottom = if a.y + a.height < b.y + b.height {
        b.y + b.height
    } else {
        a.y + a.height
    };
    DamageRect {
        x: x as u32,
        y: y as u32,
        width: (right - x) as u32,
        height: (bottom - y) as u32,
    }
}

/// The smallest rectangle around a list, built up from the first on.
pub open spec fn around_all(rects: Seq<DamageRect>) -> DamageRect
    recommends
        rects.len() > 0,
    decreases rects.len(),
{
    if rects.len() <= 1 {
        rects[0]
    } else {
        around(around_all(rects.drop_last()), rects.last())
    }
}

/// A list of at most `limit` rectangles stays; a longer one becomes one rectangle around all.
pub open spec fn coalesced(rects: Seq<DamageRect>, limit: nat) -> Seq<DamageRect> {
    if rects.len() <= limit {
        rects
    } else {
        seq![around_all(rects)]
    }
}

/// Remembers the last frame and reports what changed since.
pub struct DirtyRegionDetector {
    previous: Vec<u8>,
    dimensions: Option<(u32, u32, usize)>,
}

/// The buffers of the detector's last frame and of the current one, side by side.
pub open spec fn pair_of(previous: Seq<u8>, frame: FrameView) -> FramePair {
    FramePair {
        previous,
        current: frame.data,
        width: frame.layout.width() as int,
        height: frame.layout.height() as int,
        stride: frame.layout.stride() as int,
        pixel_bytes: if frame.layout.pixel_format() == PixelFormat::Rgb24 {
            3
        } else {
            4
        },
    }
}

/// The rectangle over a whole frame.
pub open spec fn whole_frame(frame: FrameView) -> DamageRect {
    DamageRect { x: 0, y: 0, width: frame.layout.width(), height: frame.layout.height() }
}

/// The last frame of a detector: its buffer, and its width, height and stride if there was one.
pub struct SeenFrame {
    pub data: Seq<u8>,
    pub dimensions: Option<(u32, u32, usize)>,
}

impl SeenFrame {
    /// What is remembered of a frame.
    pub open spec fn of(frame: FrameView) -> SeenFrame {
        SeenFrame {
            data: frame.data,
            dimensions: Some(
                (frame.layout.width(), frame.layout.height(), frame.layout.stride()),
            ),
        }
    }

    /// The last frame had the dimensions of the current one.
    pub open spec fn comparable(self, frame: FrameView) -> bool {
        &&& self.dimensions == SeenFrame::of(frame).dimensions
        &&& self.data.len() == frame.data.len()
    }

    /// What is reported for a frame: all of it where there is nothing to compare it with, else
    /// the runs of changed tiles, taken together where there are too many.
    pub open spec fn reported(self, frame: FrameView) -> Seq<DamageRect> {
        if !self.comparable(frame) {
            seq![whole_frame(frame)]
        } else {
            let pair = pair_of(self.data, frame);
            coalesced(pair.regions(pair.tiles_y() as nat), MAX_DESKTOP_REGIONS as nat)
        }
    }
}

impl View for DirtyRegionDetector {
    type V = SeenFrame;

    closed spec fn view(&self) -> SeenFrame {
        SeenFrame { data: self.previous@, dimensions: self.dimensions }
    }
}

impl DirtyRegionDetector {
    /// Compares a frame with the last one. The copied texture is compared even where the source
    /// supplied damage metadata, because drivers report full-screen or empty lists for textures
    /// that changed in part.
    pub fn detect(&mut self, frame: &VideoFrame) -> (result: Result<Vec<DamageRect>, DcError>)
        ensures
            result matches Ok(regions) && regions@ == old(self)@.reported(frame@),
            final(self)@ == SeenFrame::of(frame@),
    {
        let layout = frame.layout();
        let bytes_per_pixel: usize = match layout.pixel_format().packed_bytes_per_pixel() {
            Some(bytes) => bytes,
            None => {
                return Err(DcError::unsupported("dirty detection requires packed pixels"));
            },
        };
        let size = layout.size();
        let width: u32 = size.width();
        let height: u32 = size.height();
        let stride: usize = layout.stride();
        let data = frame.data();
        let comparable = match self.dimensions {
            Some((w, h, s)) => w == width && h == height && s == stride && self.previous.len()
                == data.len(),
            None => false,
        };
        let ghost pair = pair_of(self@.data, frame@);
        let regions = if !comparable {
            let mut regions: Vec<DamageRect> = Vec::new();
            regions.push(DamageRect { x: 0, y: 0, width, height });
            assert(regions@ =~= seq![whole_frame(frame@)]);
            regions
        } else {
            assert(width * bytes_per_pixel == row_bytes(width, frame@.layout.pixel_format()));
            let regions = detect_changed_tiles(
                self.previous.as_slice(),
                data,
                width,
                height,
                stride,
                bytes_per_pixel,
                Ghost(pair),
            );
            proof {
                lemma_regions_inside(pair, pair.tiles_y() as nat);
            }
            coalesce_regions(regions, MAX_DESKTOP_REGIONS, Ghost(width), Ghost(height))
        };
        self.previous = vstd::slice::slice_to_vec(data);
        self.dimensions = Some((width, height, stride));
        Ok(regions)
    }
}

impl Default for DirtyRegionDetector {
    fn default() -> (detector: DirtyRegionDetector)
        ensures
            detector@.dimensions is None,
    {
        DirtyRegionDetector { previous: Vec::new(), dimensions: None }
    }
}

/// Tells whether part of two equally long buffers differs.
fn range_differs(previous: &[u8], current: &[u8], start: usize, end: usize) -> (result: bool)
    requires
        start <= end <= previous@.len(),
        end <= current@.len(),
    ensures
        result == exists|i: int|
            start <= i < end && #[trigger] previous@[i] != #[trigger] current@[i],
{
    let mut index: usize = start;
    while index < end
        invariant
            start <= index <= end <= previous@.len(),
            end <= current@.len(),
            forall|i: int|
                start <= i < index ==> #[trigger] previous@[i] == #[trigger] current@[i],
        decreases end - index,
    {
        if previous[index] != current[index] {
            assert(previous@[index as int] != current@[index as int]);
            return true;
        }
        index = index + 1;
    }
    false
}

/// Tells whether a tile changed.
fn tile_differs(
    previous: &[u8],
    current: &[u8],
    stride: usize,
    bytes_per_pixel: usize,
    left: usize,
    right: usize,
    top: u32,
    bottom: u32,
    Ghost(pair): Ghost<FramePair>,
    Ghost(tile_x): Ghost<int>,
    Ghost(tile_y): Ghost<int>,
) -> (result: bool)
    requires
        pair.valid(),
        pair.previous == previous@,
        pair.current == current@,
        pair.stride == stride,
        pair.pixel_bytes == bytes_per_pixel,
        tile_x >= 0,
        tile_y >= 0,
        left == 64 * tile_x,
        left < right,
        right == pair.tile_right(tile_x),
        top == 64 * tile_y,
        bottom == pair.tile_bottom(tile_y),
    ensures
        result == pair.tile_changed(tile_x, tile_y),
{
    let available: usize = previous.len();
    let mut row: u32 = top;
    let ghost first = left * bytes_per_pixel;
    let ghost behind = right * bytes_per_pixel;
    while row < bottom
        invariant
            pair.valid(),
            pair.previous == previous@,
            pair.current == current@,
            pair.stride == stride,
            pair.pixel_bytes == bytes_per_pixel,
            tile_x >= 0,
            tile_y >= 0,
            left == 64 * tile_x,
            left < right,
            right == pair.tile_right(tile_x),
            top == 64 * tile_y,
            bottom == pair.tile_bottom(tile_y),
            available == previous@.len(),
            first == left * bytes_per_pixel,
            behind == right * bytes_per_pixel,
            top <= row,
            forall|r: int, column: int|
                r < row && #[trigger] pair.in_tile(tile_x, tile_y, r, column) ==> !pair.differs(
                    r,
                    column,
                ),
        decreases bottom - row,
    {
        proof {
            lemma_row_in_buffer(stride as int, row as int, pair.height);
            assert(0 <= first <= behind <= stride) by (nonlinear_arith)
                requires
                    first == left * bytes_per_pixel,
                    behind == right * bytes_per_pixel,
                    0 <= left <= right <= pair.width,
                    bytes_per_pixel == pair.pixel_bytes,
                    pair.width * pair.pixel_bytes <= stride,
            ;
            assert(64 * tile_x * pair.pixel_bytes == first);
        }
        let base: usize = row as usize * stride;
        let start: usize = base + left * bytes_per_pixel;
        let end: usize = base + right * bytes_per_pixel;
        if range_differs(previous, current, start, end) {
            proof {
                let i = choose|i: int|
                    start <= i < end && #[trigger] previous@[i] != #[trigger] current@[i];
                assert(pair.in_tile(tile_x, tile_y, row as int, i - base));
                assert(pair.differs(row as int, i - base));
            }
            return true;
        }
        proof {
            assert forall|r: int, column: int|
                r < row + 1 && #[trigger] pair.in_tile(tile_x, tile_y, r, column) implies
                !pair.differs(r, column) by {
                if r == row {
                    assert(previous@[base + column] == current@[base + column]);
                }
            }
        }
        row = row + 1;
    }
    false
}

/// Appends the rectangles of one row of tiles.
fn put_row_regions(
    regions: &mut Vec<DamageRect>,
    previous: &[u8],
    current: &[u8],
    width: u32,
    stride: usize,
    bytes_per_pixel: usize,
    top: u32,
    bottom: u32,
    Ghost(pair): Ghost<FramePair>,
    Ghost(tile_y): Ghost<int>,
)
    requires
        pair.valid(),
        pair.previous == previous@,
        pair.current == current@,
        pair.width == width,
        pair.stride == stride,
        pair.pixel_bytes == bytes_per_pixel,
        0 <= tile_y < pair.tiles_y(),
        top == 64 * tile_y,
        bottom == pair.tile_bottom(tile_y),
    ensures
        final(regions)@ == old(regions)@ + pair.row_regions(tile_y),
{
    let tiles_x: u64 = (width as u64 + 63) / 64;
    let mut tile_x: u64 = 0;
    let mut run_start: Option<u64> = None;
    assert(regions@ =~= old(regions)@ + pair.scan(tile_y, 0).0);
    while tile_x <= tiles_x
        invariant
            pair.valid(),
            pair.previous == previous@,
            pair.current == current@,
            pair.width == width,
            pair.stride == stride,
            pair.pixel_bytes == bytes_per_pixel,
            0 <= tile_y < pair.tiles_y(),
            top == 64 * tile_y,
            bottom == pair.tile_bottom(tile_y),
            tiles_x == pair.tiles_x(),
            tile_x <= tiles_x + 1,
            match run_start {
                Some(start) => start < tile_x <= tiles_x && pair.scan(tile_y, tile_x as nat).1 == Some(
                    start as int,
                ),
                None => pair.scan(tile_y, tile_x as nat).1 is None,
            },
            regions@ == old(regions)@ + pair.scan(tile_y, tile_x as nat).0,
        decreases tiles_x + 1 - tile_x,
    {
        let left: u64 = tile_x * 64;
        let changed = if tile_x == tiles_x {
            false
        } else {
            let right: u64 = if left + 64 < width as u64 {
                left + 64
            } else {
                width as u64
            };
            tile_differs(
                previous,
                current,
                stride,
                bytes_per_pixel,
                left as usize,
                right as usize,
                top,
                bottom,
                Ghost(pair),
                Ghost(tile_x as int),
                Ghost(tile_y),
            )
        };
        match run_start {
            None => {
                if changed {
                    run_start = Some(tile_x);
                }
            },
            Some(start) => {
                if !changed {
                    let x: u64 = start * 64;
                    let end: u64 = if left < width as u64 {
                        left
                    } else {
                        width as u64
                    };
                    let region = DamageRect {
                        x: x as u32,
                        y: top,
                        width: (end - x) as u32,
                        height: bottom - top,
                    };
                    assert(region == pair.run_rect(start as int, tile_x as int, tile_y));
                    regions.push(region);
                    run_start = None;
                }
            },
        }
        assert(regions@ =~= old(regions)@ + pair.scan(tile_y, (tile_x + 1) as nat).0);
        tile_x = tile_x + 1;
    }
}

/// Compares two buffers tile by tile.
fn detect_changed_tiles(
    previous: &[u8],
    current: &[u8],
    width: u32,
    height: u32,
    stride: usize,
    bytes_per_pixel: usize,
    Ghost(pair): Ghost<FramePair>,
) -> (regions: Vec<DamageRect>)
    requires
        pair.valid(),
        pair.previous == previous@,
        pair.current == current@,
        pair.width == width,
        pair.height == height,
        pair.stride == stride,
        pair.pixel_bytes == bytes_per_pixel,
    ensures
        regions@ == pair.regions(pair.tiles_y() as nat),
{
    let mut regions: Vec<DamageRect> = Vec::new();
    let tiles_y: u64 = (height as u64 + 63) / 64;
    let mut tile_y: u64 = 0;
    while tile_y < tiles_y
        invariant
            pair.valid(),
            pair.previous == previous@,
            pair.current == current@,
            pair.width == width,
            pair.height == height,
            pair.stride == stride,
            pair.pixel_bytes == bytes_per_pixel,
            tiles_y == pair.tiles_y(),
            tile_y <= tiles_y,
            regions@ == pair.regions(tile_y as nat),
        decreases tiles_y - tile_y,
    {
        let top: u64 = tile_y * 64;
        let bottom: u64 = if top + 64 < height as u64 {
            top + 64
        } else {
            height as u64
        };
        put_row_regions(
            &mut regions,
            previous,
            current,
            width,
            stride,
            bytes_per_pixel,
            top as u32,
            bottom as u32,
            Ghost(pair),
            Ghost(tile_y as int),
        );
        tile_y = tile_y + 1;
    }
    regions
}

/// The smallest rectangle around two rectangles inside a frame.
fn union(a: DamageRect, b: DamageRect, Ghost(width): Ghost<u32>, Ghost(height): Ghost<u32>) -> (result:
    DamageRect)
    requires
        a.inside(width, height),
        b.inside(width, height),
    ensures
        result == around(a, b),
        result.inside(width, height),
{
    let a_right: u32 = a.x + a.width;
    let b_right: u32 = b.x + b.width;
    let a_bottom: u32 = a.y + a.height;
    let b_bottom: u32 = b.y + b.height;
    let right: u32 = if a_right < b_right {
        b_right
    } else {
        a_right
    };
    let bottom: u32 = if a_bottom < b_bottom {
        b_bottom
    } else {
        a_bottom
    };
    let x: u32 = if a.x < b.x {
        a.x
    } else {
        b.x
    };
    let y: u32 = if a.y < b.y {
        a.y
    } else {
        b.y
    };
    DamageRect { x, y, width: right - x, height: bottom - y }
}

/// Keeps a short list; takes a long one together.
fn coalesce_regions(
    regions: Vec<DamageRect>,
    limit: usize,
    Ghost(width): Ghost<u32>,
    Ghost(height): Ghost<u32>,
) -> (result: Vec<DamageRect>)
    requires
        forall|i: int|
            0 <= i < regions@.len() ==> (#[trigger] regions@[i]).inside(width, height),
    ensures
        result@ == coalesced(regions@, limit as nat),
{
    if regions.len() <= limit {
        return regions;
    }
    let mut merged = regions[0];
    let mut index: usize = 1;
    assert(regions@.take(1)[0] == regions@[0]);
    while index < regions.len()
        invariant
            1 <= index <= regions@.len(),
            forall|i: int|
                0 <= i < regions@.len() ==> (#[trigger] regions@[i]).inside(width, height),
            merged == around_all(regions@.take(index as int)),
            merged.inside(width, height),
        decreases regions@.len() - index,
    {
        let next = regions[index];
        assert(next.inside(width, height));
        assert(regions@.take(index + 1).drop_last() =~= regions@.take(index as int));
        merged = union(merged, next, Ghost(width), Ghost(height));
        index = index + 1;
    }
    assert(regions@.take(index as int) =~= regions@);
    let mut result: Vec<DamageRect> = Vec::new();
    result.push(merged);
    assert(result@ =~= coalesced(regions@, limit as nat));
    result
}

/// A run that has not ended began at a tile before, and the rectangles of a row lie inside the
/// frame.
proof fn lemma_scan_inside(pair: FramePair, tile_y: int, count: nat)
    requires
        pair.valid(),
        0 <= tile_y < pair.tiles_y(),
        count <= pair.tiles_x() + 1,
    ensures
        pair.scan(tile_y, count).1 matches Some(start) ==> 0 <= start < count && start
            < pair.tiles_x(),
        forall|i: int|
            0 <= i < pair.scan(tile_y, count).0.len() ==> (#[trigger] pair.scan(
                tile_y,
                count,
            ).0[i]).inside(pair.width as u32, pair.height as u32),
    decreases count,
{
    if count > 0 {
        lemma_scan_inside(pair, tile_y, (count - 1) as nat);
        let before = pair.scan(tile_y, (count - 1) as nat);
        if let Some(start) = before.1 {
            let rect = pair.run_rect(start, count - 1, tile_y);
            assert(rect.inside(pair.width as u32, pair.height as u32));
        }
        let found = pair.scan(tile_y, count).0;
        assert forall|i: int| 0 <= i < found.len() implies (#[trigger] found[i]).inside(
            pair.width as u32,
            pair.height as u32,
        ) by {
            if i < before.0.len() {
                assert(found[i] == before.0[i]);
            }
        }
    }
}

proof fn lemma_regions_inside(pair: FramePair, rows: nat)
    requires
        pair.valid(),
        rows <= pair.tiles_y(),
    ensures
        forall|i: int|
            0 <= i < pair.regions(rows).len() ==> (#[trigger] pair.regions(rows)[i]).inside(
                pair.width as u32,
                pair.height as u32,
            ),
    decreases rows,
{
    if rows > 0 {
        lemma_regions_inside(pair, (rows - 1) as nat);
        lemma_scan_inside(pair, rows - 1, (pair.tiles_x() + 1) as nat);
        let before = pair.regions((rows - 1) as nat);
        let row = pair.row_regions(rows - 1);
        assert forall|i: int| 0 <= i < pair.regions(rows).len() implies (#[trigger] pair.regions(
            rows,
        )[i]).inside(pair.width as u32, pair.height as u32) by {
            if i < before.len() {
                assert(pair.regions(rows)[i] == before[i]);
            } else {
                assert(pair.regions(rows)[i] == row[i - before.len()]);
            }
        }
    }
}

/// The rectangle covers a whole tile.
spec fn covers_tile(pair: FramePair, rect: DamageRect, tile_x: int, tile_y: int) -> bool {
    &&& rect.x <= 64 * tile_x
    &&& pair.tile_right(tile_x) <= rect.x + rect.width
    &&& rect.y <= 64 * tile_y
    &&& pair.tile_bottom(tile_y) <= rect.y + rect.height
}

/// Some rectangle of the list covers a whole tile.
spec fn some_covers(
    pair: FramePair,
    rects: Seq<DamageRect>,
    tile_x: int,
    tile_y: int,
) -> bool {
    exists|i: int| 0 <= i < rects.len() && #[trigger] covers_tile(pair, rects[i], tile_x, tile_y)
}

proof fn lemma_covered_grows(
    pair: FramePair,
    rects: Seq<DamageRect>,
    more: Seq<DamageRect>,
    offset: int,
    tile_x: int,
    tile_y: int,
)
    requires
        some_covers(pair, rects, tile_x, tile_y),
        0 <= offset,
        offset + rects.len() <= more.len(),
        forall|i: int| 0 <= i < rects.len() ==> #[trigger] rects[i] == more[offset + i],
    ensures
        some_covers(pair, more, tile_x, tile_y),
{
    let i = choose|i: int|
        0 <= i < rects.len() && #[trigger] covers_tile(pair, rects[i], tile_x, tile_y);
    assert(covers_tile(pair, more[offset + i], tile_x, tile_y));
}

/// A changed tile that was passed is covered, or belongs to the run that has not ended.
proof fn lemma_scan_covers(pair: FramePair, tile_y: int, count: nat, tile_x: int)
    requires
        pair.valid(),
        0 <= tile_y < pair.tiles_y(),
        count <= pair.tiles_x() + 1,
        0 <= tile_x < count,
        tile_x < pair.tiles_x(),
        pair.tile_changed(tile_x, tile_y),
    ensures
        some_covers(pair, pair.scan(tile_y, count).0, tile_x, tile_y) || (pair.scan(
            tile_y,
            count,
        ).1 matches Some(start) && start <= tile_x),
    decreases count,
{
    let before = pair.scan(tile_y, (count - 1) as nat);
    let after = pair.scan(tile_y, count);
    lemma_scan_inside(pair, tile_y, (count - 1) as nat);
    if tile_x < count - 1 {
        lemma_scan_covers(pair, tile_y, (count - 1) as nat, tile_x);
        if some_covers(pair, before.0, tile_x, tile_y) {
            lemma_covered_grows(pair, before.0, after.0, 0, tile_x, tile_y);
        } else {
            let start = before.1->Some_0;
            if after.1 is None {
                let rect = pair.run_rect(start, count - 1, tile_y);
                assert(covers_tile(pair, rect, tile_x, tile_y));
                assert(after.0[after.0.len() - 1] == rect);
            }
        }
    }
}

/// Behind the last tile no run is left open.
proof fn lemma_scan_ends(pair: FramePair, tile_y: int)
    requires
        pair.valid(),
    ensures
        pair.scan(tile_y, (pair.tiles_x() + 1) as nat).1 is None,
{
}

proof fn lemma_regions_cover(pair: FramePair, rows: nat, tile_x: int, tile_y: int)
    requires
        pair.valid(),
        rows <= pair.tiles_y(),
        0 <= tile_y < rows,
        0 <= tile_x < pair.tiles_x(),
        pair.tile_changed(tile_x, tile_y),
    ensures
        some_covers(pair, pair.regions(rows), tile_x, tile_y),
    decreases rows,
{
    let before = pair.regions((rows - 1) as nat);
    if tile_y < rows - 1 {
        lemma_regions_cover(pair, (rows - 1) as nat, tile_x, tile_y);
        lemma_covered_grows(pair, before, pair.regions(rows), 0, tile_x, tile_y);
    } else {
        lemma_scan_covers(pair, tile_y, (pair.tiles_x() + 1) as nat, tile_x);
        lemma_scan_ends(pair, tile_y);
        lemma_covered_grows(
            pair,
            pair.row_regions(tile_y),
            pair.regions(rows),
            before.len() as int,
            tile_x,
            tile_y,
        );
    }
}

/// The rectangle around a list lies inside the frame and covers each rectangle of the list.
proof fn lemma_around_all(rects: Seq<DamageRect>, width: u32, height: u32)
    requires
        rects.len() > 0,
        forall|i: int| 0 <= i < rects.len() ==> (#[trigger] rects[i]).inside(width, height),
    ensures
        around_all(rects).inside(width, height),
        forall|i: int|
            0 <= i < rects.len() ==> around_all(rects).x <= (#[trigger] rects[i]).x && around_all(
                rects,
            ).y <= rects[i].y && rects[i].x + rects[i].width <= around_all(rects).x + around_all(
                rects,
            ).width && rects[i].y + rects[i].height <= around_all(rects).y + around_all(
                rects,
            ).height,
    decreases rects.len(),
{
    if rects.len() > 1 {
        let front = rects.drop_last();
        assert forall|i: int| 0 <= i < front.len() implies (#[trigger] front[i]).inside(
            width,
            height,
        ) by {
            assert(front[i] == rects[i]);
        }
        lemma_around_all(front, width, height);
        assert(rects.last().inside(width, height));
        assert forall|i: int| 0 <= i < rects.len() implies around_all(rects).x <= (
        #[trigger] rects[i]).x && around_all(rects).y <= rects[i].y && rects[i].x + rects[i].width
            <= around_all(rects).x + around_all(rects).width && rects[i].y + rects[i].height
            <= around_all(rects).y + around_all(rects).height by {
            if i < front.len() {
                assert(front[i] == rects[i]);
            }
        }
    }
}

/// Every reported rectangle lies inside the frame and is not empty.
pub proof fn law_reported_regions_lie_inside(detector: SeenFrame, frame: FrameView)
    requires
        frame.facts(),
    ensures
        detector.reported(frame).len() <= MAX_DESKTOP_REGIONS,
        forall|i: int|
            0 <= i < detector.reported(frame).len() ==> (#[trigger] detector.reported(
                frame,
            )[i]).inside(frame.layout.width(), frame.layout.height()),
{
    if detector.comparable(frame) {
        let pair = pair_of(detector.data, frame);
        let regions = pair.regions(pair.tiles_y() as nat);
        assert(pair.valid());
        lemma_regions_inside(pair, pair.tiles_y() as nat);
        if regions.len() > MAX_DESKTOP_REGIONS {
            lemma_around_all(regions, frame.layout.width(), frame.layout.height());
        }
    }
}

/// No change is missed: a pixel with a byte that differs from the last frame lies in a reported
/// rectangle.
pub proof fn law_every_change_is_reported(
    detector: SeenFrame,
    frame: FrameView,
    x: int,
    y: int,
    channel: int,
)
    requires
        frame.facts(),
        detector.comparable(frame),
        0 <= x < frame.layout.width(),
        0 <= y < frame.layout.height(),
        0 <= channel < pair_of(detector.data, frame).pixel_bytes,
        pair_of(detector.data, frame).differs(
            y,
            x * pair_of(detector.data, frame).pixel_bytes + channel,
        ),
    ensures
        exists|i: int|
            0 <= i < detector.reported(frame).len() && (#[trigger] detector.reported(
                frame,
            )[i]).covers(x, y),
{
    let pair = pair_of(detector.data, frame);
    let regions = pair.regions(pair.tiles_y() as nat);
    let tile_x = x / 64;
    let tile_y = y / 64;
    let column = x * pair.pixel_bytes + channel;
    assert(pair.valid());
    assert(pair.in_tile(tile_x, tile_y, y, column)) by {
        let bytes = pair.pixel_bytes;
        assert(64 * tile_x * bytes <= x * bytes) by (nonlinear_arith)
            requires
                64 * tile_x <= x,
                bytes >= 0,
        ;
        assert((x + 1) * bytes <= pair.tile_right(tile_x) * bytes) by (nonlinear_arith)
            requires
                x + 1 <= pair.tile_right(tile_x),
                bytes >= 0,
        ;
        assert((x + 1) * bytes == x * bytes + bytes) by (nonlinear_arith);
    }
    assert(pair.tile_changed(tile_x, tile_y));
    lemma_regions_cover(pair, pair.tiles_y() as nat, tile_x, tile_y);
    let i = choose|i: int|
        0 <= i < regions.len() && #[trigger] covers_tile(pair, regions[i], tile_x, tile_y);
    assert(regions[i].covers(x, y));
    if regions.len() <= MAX_DESKTOP_REGIONS {
        assert(detector.reported(frame)[i].covers(x, y));
    } else {
        lemma_regions_inside(pair, pair.tiles_y() as nat);
        lemma_around_all(regions, frame.layout.width(), frame.layout.height());
        assert(detector.reported(frame)[0].covers(x, y));
    }
}

proof fn lemma_unchanged_rows(pair: FramePair, tile_y: int, count: nat)
    requires
        forall|tile_x: int| !pair.tile_changed(tile_x, tile_y),
    ensures
        pair.scan(tile_y, count) == (Seq::<DamageRect>::empty(), None::<int>),
    decreases count,
{
    if count > 0 {
        lemma_unchanged_rows(pair, tile_y, (count - 1) as nat);
        assert(!pair.tile_changed(count - 1, tile_y));
    }
}

proof fn lemma_unchanged_regions(pair: FramePair, rows: nat)
    requires
        forall|tile_x: int, tile_y: int| !pair.tile_changed(tile_x, tile_y),
    ensures
        pair.regions(rows) == Seq::<DamageRect>::empty(),
    decreases rows,
{
    if rows > 0 {
        lemma_unchanged_regions(pair, (rows - 1) as nat);
        let last = rows - 1;
        assert(forall|tile_x: int| !pair.tile_changed(tile_x, last));
        lemma_unchanged_rows(pair, last, (pair.tiles_x() + 1) as nat);
        assert(pair.regions(rows) =~= Seq::empty());
    }
}

/// A frame that equals the last one is reported as unchanged.
pub proof fn law_unchanged_frame_reports_nothing(detector: SeenFrame, frame: FrameView)
    requires
        detector.comparable(frame),
        detector.data == frame.data,
    ensures
        detector.reported(frame).len() == 0,
{
    let pair = pair_of(detector.data, frame);
    lemma_unchanged_regions(pair, pair.tiles_y() as nat);
}

/// The rectangle is a run of changed tiles in one row of tiles.
pub open spec fn changed_run(pair: FramePair, rect: DamageRect) -> bool {
    exists|start: int, end: int, tile_y: int|
        start < end && rect == #[trigger] pair.run_rect(start, end, tile_y) && forall|tile_x: int|
            start <= tile_x < end ==> #[trigger] pair.tile_changed(tile_x, tile_y)
}

proof fn lemma_scan_is_precise(pair: FramePair, tile_y: int, count: nat)
    ensures
        forall|i: int|
            0 <= i < pair.scan(tile_y, count).0.len() ==> changed_run(
                pair,
                #[trigger] pair.scan(tile_y, count).0[i],
            ),
        pair.scan(tile_y, count).1 matches Some(start) ==> start < count && forall|tile_x: int|
            start <= tile_x < count ==> #[trigger] pair.tile_changed(tile_x, tile_y),
    decreases count,
{
    if count > 0 {
        let before = pair.scan(tile_y, (count - 1) as nat);
        let after = pair.scan(tile_y, count);
        lemma_scan_is_precise(pair, tile_y, (count - 1) as nat);
        if let Some(start) = before.1 {
            assert(changed_run(pair, pair.run_rect(start, count - 1, tile_y)));
        }
        assert forall|i: int| 0 <= i < after.0.len() implies changed_run(
            pair,
            #[trigger] after.0[i],
        ) by {
            if i < before.0.len() {
                assert(after.0[i] == before.0[i]);
            }
        }
    }
}

proof fn lemma_regions_are_precise(pair: FramePair, rows: nat)
    ensures
        forall|i: int|
            0 <= i < pair.regions(rows).len() ==> changed_run(pair, #[trigger] pair.regions(rows)[i]),
    decreases rows,
{
    if rows > 0 {
        let before = pair.regions((rows - 1) as nat);
        let row = pair.row_regions(rows - 1);
        lemma_regions_are_precise(pair, (rows - 1) as nat);
        lemma_scan_is_precise(pair, rows - 1, (pair.tiles_x() + 1) as nat);
        assert forall|i: int| 0 <= i < pair.regions(rows).len() implies changed_run(
            pair,
            #[trigger] pair.regions(rows)[i],
        ) by {
            if i < before.len() {
                assert(pair.regions(rows)[i] == before[i]);
            } else {
                assert(pair.regions(rows)[i] == row[i - before.len()]);
            }
        }
    }
}

/// Only changed tiles are reported, as long as the list is not taken together: each rectangle is
/// a run of changed tiles.
pub proof fn law_only_changed_tiles_are_reported(detector: SeenFrame, frame: FrameView)
    requires
        detector.comparable(frame),
        ({
            let pair = pair_of(detector.data, frame);
            pair.regions(pair.tiles_y() as nat).len() <= MAX_DESKTOP_REGIONS
        }),
    ensures
        forall|i: int|
            0 <= i < detector.reported(frame).len() ==> changed_run(
                pair_of(detector.data, frame),
                #[trigger] detector.reported(frame)[i],
            ),
{
    let pair = pair_of(detector.data, frame);
    lemma_regions_are_precise(pair, pair.tiles_y() as nat);
}

/// No pixel lies in both rectangles.
pub open spec fn apart(a: DamageRect, b: DamageRect) -> bool {
    forall|x: int, y: int| a.covers(x, y) ==> !(#[trigger] b.covers(x, y))
}

/// The runs found in a row of tiles stand one behind the other.
proof fn lemma_scan_apart(pair: FramePair, tile_y: int, count: nat)
    requires
        pair.valid(),
        0 <= tile_y < pair.tiles_y(),
        count <= pair.tiles_x() + 1,
    ensures
        ({
            let (found, run) = pair.scan(tile_y, count);
            let reached = match run {
                None => count as int,
                Some(start) => start,
            };
            &&& forall|i: int|
                0 <= i < found.len() ==> {
                    &&& (#[trigger] found[i]).y == 64 * tile_y
                    &&& found[i].y + found[i].height == pair.tile_bottom(tile_y)
                    &&& found[i].x + found[i].width <= 64 * reached
                }
            &&& forall|i: int, j: int|
                0 <= i < j < found.len() ==> (#[trigger] found[i]).x + found[i].width <= (
                #[trigger] found[j]).x
        }),
    decreases count,
{
    if count > 0 {
        let tile_x = count - 1;
        lemma_scan_apart(pair, tile_y, tile_x as nat);
        lemma_scan_inside(pair, tile_y, tile_x as nat);
        let (before, run) = pair.scan(tile_y, tile_x as nat);
        let found = pair.scan(tile_y, count).0;
        if let Some(start) = run {
            let rect = pair.run_rect(start, tile_x, tile_y);
            assert(rect.x == 64 * start);
            assert(rect.y == 64 * tile_y);
            assert(rect.y + rect.height == pair.tile_bottom(tile_y));
            assert(rect.x + rect.width <= 64 * tile_x);
        }
        assert forall|i: int| 0 <= i < found.len() implies {
            &&& (#[trigger] found[i]).y == 64 * tile_y
            &&& found[i].y + found[i].height == pair.tile_bottom(tile_y)
        } by {
            if i < before.len() {
                assert(found[i] == before[i]);
            }
        }
        assert forall|i: int, j: int| 0 <= i < j < found.len() implies (#[trigger] found[i]).x
            + found[i].width <= (#[trigger] found[j]).x by {
            assert(found[i] == before[i]);
            if j < before.len() {
                assert(found[j] == before[j]);
            }
        }
    }
}

proof fn lemma_regions_apart(pair: FramePair, rows: nat)
    requires
        pair.valid(),
        rows <= pair.tiles_y(),
    ensures
        forall|i: int|
            0 <= i < pair.regions(rows).len() ==> (#[trigger] pair.regions(rows)[i]).y
                + pair.regions(rows)[i].height <= 64 * rows,
        forall|i: int, j: int|
            0 <= i < j < pair.regions(rows).len() ==> apart(
                #[trigger] pair.regions(rows)[i],
                #[trigger] pair.regions(rows)[j],
            ),
    decreases rows,
{
    if rows > 0 {
        let tile_y = rows - 1;
        lemma_regions_apart(pair, tile_y as nat);
        lemma_scan_apart(pair, tile_y, (pair.tiles_x() + 1) as nat);
        let before = pair.regions(tile_y as nat);
        let row = pair.row_regions(tile_y);
        let all = pair.regions(rows);
        assert forall|i: int| 0 <= i < all.len() implies (#[trigger] all[i]).y + all[i].height <= 64
            * rows by {
            if i < before.len() {
                assert(all[i] == before[i]);
            } else {
                assert(all[i] == row[i - before.len()]);
            }
        }
        assert forall|i: int, j: int| 0 <= i < j < all.len() implies apart(
            #[trigger] all[i],
            #[trigger] all[j],
        ) by {
            if j < before.len() {
                assert(all[i] == before[i]);
                assert(all[j] == before[j]);
            } else {
                assert(all[j] == row[j - before.len()]);
                if i < before.len() {
                    assert(all[i] == before[i]);
                } else {
                    assert(all[i] == row[i - before.len()]);
                }
            }
        }
    }
}

/// The reported rectangles do not overlap.
pub proof fn law_reported_regions_are_apart(detector: SeenFrame, frame: FrameView)
    requires
        frame.facts(),
    ensures
        forall|i: int, j: int|
            0 <= i < j < detector.reported(frame).len() ==> apart(
                #[trigger] detector.reported(frame)[i],
                #[trigger] detector.reported(frame)[j],
            ),
{
    if detector.comparable(frame) {
        let pair = pair_of(detector.data, frame);
        assert(pair.valid());
        lemma_regions_apart(pair, pair.tiles_y() as nat);
    }
}

/// Some byte of the pixel at column `x` of row `y` differs between the frames.
pub open spec fn pixel_changed(pair: FramePair, x: int, y: int) -> bool {
    exists|channel: int|
        0 <= channel < pair.pixel_bytes && #[trigger] pair.differs(y, x * pair.pixel_bytes + channel)
}

/// Some pixel differs between the frames. The bytes that pad a row belong to no pixel.
pub open spec fn some_pixel_changed(pair: FramePair) -> bool {
    exists|x: int, y: int|
        0 <= x < pair.width && 0 <= y < pair.height && #[trigger] pixel_changed(pair, x, y)
}

/// A tile with a byte that differs has a pixel that differs.
proof fn lemma_changed_tile_has_pixel(pair: FramePair, tile_x: int, tile_y: int)
    requires
        pair.valid(),
        0 <= tile_x,
        0 <= tile_y,
        pair.tile_changed(tile_x, tile_y),
    ensures
        some_pixel_changed(pair),
{
    let (row, column) = choose|row: int, column: int| #[trigger]
        pair.in_tile(tile_x, tile_y, row, column) && pair.differs(row, column);
    let bytes = pair.pixel_bytes;
    let x = column / bytes;
    let channel = column % bytes;
    assert(0 <= 64 * tile_x * bytes) by (nonlinear_arith)
        requires
            0 <= tile_x,
            0 <= bytes,
    ;
    assert(column == x * bytes + channel && 0 <= channel < bytes && 0 <= x) by (nonlinear_arith)
        requires
            bytes > 0,
            column >= 0,
            x == column / bytes,
            channel == column % bytes,
    ;
    assert(x < pair.width) by (nonlinear_arith)
        requires
            x * bytes <= column,
            column < pair.tile_right(tile_x) * bytes,
            pair.tile_right(tile_x) <= pair.width,
            bytes > 0,
    ;
    assert(pair.differs(row, x * bytes + channel));
    assert(pixel_changed(pair, x, row));
}

/// Without a pixel that differs nothing is found.
proof fn lemma_same_pixels_same_tiles(pair: FramePair, tile_y: int, count: nat)
    requires
        pair.valid(),
        0 <= tile_y,
        !some_pixel_changed(pair),
    ensures
        pair.scan(tile_y, count) == (Seq::<DamageRect>::empty(), None::<int>),
    decreases count,
{
    if count > 0 {
        lemma_same_pixels_same_tiles(pair, tile_y, (count - 1) as nat);
        if pair.tile_changed(count - 1, tile_y) {
            lemma_changed_tile_has_pixel(pair, count - 1, tile_y);
        }
    }
}

proof fn lemma_same_pixels_no_regions(pair: FramePair, rows: nat)
    requires
        pair.valid(),
        !some_pixel_changed(pair),
    ensures
        pair.regions(rows) == Seq::<DamageRect>::empty(),
    decreases rows,
{
    if rows > 0 {
        lemma_same_pixels_no_regions(pair, (rows - 1) as nat);
        lemma_same_pixels_same_tiles(pair, rows - 1, (pair.tiles_x() + 1) as nat);
        assert(pair.regions(rows) =~= Seq::empty());
    }
}

/// What is reported between two frames of the same layout: nothing where no pixel differs, even
/// where the bytes that pad the rows do; else at most as many rectangles as an update holds, each
/// inside the frame and not empty, no two of which overlap, and which hold every pixel that
/// differs. Where the second frame is compared with itself next, nothing is reported.
pub proof fn law_changes_between_frames(last: FrameView, frame: FrameView)
    requires
        last.facts(),
        frame.facts(),
        last.layout == frame.layout,
    ensures
        ({
            let pair = pair_of(last.data, frame);
            let reported = SeenFrame::of(last).reported(frame);
            &&& reported.len() == 0 <==> !some_pixel_changed(pair)
            &&& reported.len() <= MAX_DESKTOP_REGIONS
            &&& forall|i: int|
                0 <= i < reported.len() ==> (#[trigger] reported[i]).inside(
                    frame.layout.width(),
                    frame.layout.height(),
                )
            &&& forall|i: int, j: int|
                0 <= i < j < reported.len() ==> apart(
                    #[trigger] reported[i],
                    #[trigger] reported[j],
                )
            &&& forall|x: int, y: int|
                0 <= x < frame.layout.width() && 0 <= y < frame.layout.height()
                    && #[trigger] pixel_changed(pair, x, y) ==> exists|i: int|
                    0 <= i < reported.len() && (#[trigger] reported[i]).covers(x, y)
        }),
        SeenFrame::of(frame).reported(frame).len() == 0,
{
    let detector = SeenFrame::of(last);
    let pair = pair_of(last.data, frame);
    let reported = detector.reported(frame);
    assert(detector.comparable(frame));
    assert(pair.valid());
    law_reported_regions_lie_inside(detector, frame);
    law_reported_regions_are_apart(detector, frame);
    assert forall|x: int, y: int|
        0 <= x < frame.layout.width() && 0 <= y < frame.layout.height()
            && #[trigger] pixel_changed(pair, x, y) implies exists|i: int|
        0 <= i < reported.len() && (#[trigger] reported[i]).covers(x, y) by {
        let channel = choose|channel: int|
            0 <= channel < pair.pixel_bytes && #[trigger] pair.differs(
                y,
                x * pair.pixel_bytes + channel,
            );
        law_every_change_is_reported(detector, frame, x, y, channel);
    }
    if some_pixel_changed(pair) {
        let (x, y) = choose|x: int, y: int|
            0 <= x < pair.width && 0 <= y < pair.height && #[trigger] pixel_changed(pair, x, y);
        assert(pixel_changed(pair, x, y));
    } else {
        lemma_same_pixels_no_regions(pair, pair.tiles_y() as nat);
    }
    law_unchanged_frame_reports_nothing(SeenFrame::of(frame), frame);
}

proof fn lemma_area_of_both(first: Seq<DamageRect>, second: Seq<DamageRect>)
    ensures
        area_sum(first + second) == area_sum(first) + area_sum(second),
    decreases second.len(),
{
    if second.len() == 0 {
        assert(first + second =~= first);
    } else {
        lemma_area_of_both(first, second.drop_last());
        assert((first + second).drop_last() =~= first + second.drop_last());
    }
}

/// The runs found in a row of tiles do not overlap: together they are at most as wide as the
/// tiles that were looked at.
proof fn lemma_scan_area(pair: FramePair, tile_y: int, count: nat)
    requires
        pair.valid(),
        0 <= tile_y < pair.tiles_y(),
        count <= pair.tiles_x() + 1,
    ensures
        ({
            let (found, run) = pair.scan(tile_y, count);
            let height = pair.tile_bottom(tile_y) - 64 * tile_y;
            match run {
                None => area_sum(found) <= height * least(64 * count as int, pair.width),
                Some(start) => {
                    &&& 0 <= start < count
                    &&& start < pair.tiles_x()
                    &&& area_sum(found) <= height * (64 * start)
                },
            }
        }),
    decreases count,
{
    let height = pair.tile_bottom(tile_y) - 64 * tile_y;
    assert(0 < height <= 64);
    if count > 0 {
        let tile_x = count - 1;
        lemma_scan_area(pair, tile_y, tile_x as nat);
        let (found, run) = pair.scan(tile_y, tile_x as nat);
        let reached = least(64 * tile_x, pair.width);
        let further = least(64 * count as int, pair.width);
        assert(height * reached <= height * further) by (nonlinear_arith)
            requires
                height > 0,
                reached <= further,
        ;
        if run is None {
            if tile_x < pair.tiles_x() {
                assert(reached == 64 * tile_x);
            }
        } else {
            let start = run->Some_0;
            let rect = pair.run_rect(start, tile_x, tile_y);
            assert(64 * start < pair.width);
            assert(rect.width == reached - 64 * start);
            assert(rect.height == height);
            assert(found.push(rect).drop_last() =~= found);
            assert(height * (64 * start) + (reached - 64 * start) * height == height * reached)
                by (nonlinear_arith);
            assert(rect.width as nat * rect.height as nat == (reached - 64 * start) * height);
        }
    }
}

proof fn lemma_regions_area(pair: FramePair, rows: nat)
    requires
        pair.valid(),
        rows <= pair.tiles_y(),
    ensures
        area_sum(pair.regions(rows)) <= pair.width * least(64 * rows as int, pair.height),
    decreases rows,
{
    if rows > 0 {
        let row = rows - 1;
        lemma_regions_area(pair, row as nat);
        lemma_scan_area(pair, row, (pair.tiles_x() + 1) as nat);
        lemma_area_of_both(pair.regions(row as nat), pair.row_regions(row));
        let height = pair.tile_bottom(row) - 64 * row;
        assert(least(64 * (pair.tiles_x() + 1), pair.width) == pair.width);
        assert(least(64 * row, pair.height) == 64 * row);
        assert(pair.width * (64 * row) + height * pair.width == pair.width * (64 * row + height))
            by (nonlinear_arith);
        let (found, run) = pair.scan(row, (pair.tiles_x() + 1) as nat);
        assert(area_sum(found) <= height * pair.width) by {
            if run is Some {
                let start = run->Some_0;
                assert(height * (64 * start) <= height * pair.width) by (nonlinear_arith)
                    requires
                        height > 0,
                        64 * start <= pair.width,
                ;
            }
        }
    }
}

/// The reported rectangles together have no more pixels than the frame.
pub proof fn law_reported_area_fits_the_frame(detector: SeenFrame, frame: FrameView)
    requires
        frame.facts(),
    ensures
        area_sum(detector.reported(frame)) <= frame.layout.width() as nat
            * frame.layout.height() as nat,
{
    let width = frame.layout.width() as nat;
    let height = frame.layout.height() as nat;
    let reported = detector.reported(frame);
    law_reported_regions_lie_inside(detector, frame);
    if reported.len() == 1 {
        let rect = reported[0];
        assert(reported.drop_last() =~= Seq::empty());
        reveal_with_fuel(area_sum, 2);
        assert(reported.last() == rect);
        assert(rect.width as nat * rect.height as nat <= width * height) by (nonlinear_arith)
            requires
                rect.width <= width,
                rect.height <= height,
        ;
    } else {
        let pair = pair_of(detector.data, frame);
        assert(!detector.comparable(frame) ==> reported.len() == 1);
        assert(pair.valid());
        lemma_regions_area(pair, pair.tiles_y() as nat);
        assert(least(64 * pair.tiles_y(), pair.height) == pair.height);
    }
}

/// Whether a byte of a pixel differs between the frames.
pub open spec fn byte_differs(
    previous: Seq<u8>,
    frame: FrameView,
    x: int,
    y: int,
    channel: int,
) -> bool {
    let bytes: int = if frame.layout.pixel_format() == PixelFormat::Rgb24 {
        3
    } else {
        4
    };
    let at = y * frame.layout.stride() + (x * bytes + channel);
    0 <= channel < bytes && previous[at] != frame.data[at]
}

/// Whether a pixel shares a square of sixty-four by sixty-four pixels with one that differs between
/// the frames.
pub open spec fn near_change(previous: Seq<u8>, frame: FrameView, x: int, y: int) -> bool {
    exists|there: int, row: int, channel: int|
        {
            &&& 0 <= there < frame.layout.width()
            &&& 0 <= row < frame.layout.height()
            &&& there / 64 == x / 64
            &&& row / 64 == y / 64
            &&& #[trigger] byte_differs(previous, frame, there, row, channel)
        }
}

proof fn lemma_tile_has_change(
    previous: Seq<u8>,
    frame: FrameView,
    tile_x: int,
    tile_y: int,
    x: int,
    y: int,
)
    requires
        pair_of(previous, frame).valid(),
        0 <= tile_x,
        0 <= tile_y,
        pair_of(previous, frame).tile_changed(tile_x, tile_y),
        x / 64 == tile_x,
        y / 64 == tile_y,
    ensures
        near_change(previous, frame, x, y),
{
    let pair = pair_of(previous, frame);
    let (row, column) = choose|row: int, column: int| #[trigger]
        pair.in_tile(tile_x, tile_y, row, column) && pair.differs(row, column);
    let bytes = pair.pixel_bytes;
    let there = column / bytes;
    let channel = column % bytes;
    assert(0 <= 64 * tile_x * bytes) by (nonlinear_arith)
        requires
            0 <= tile_x,
            0 <= bytes,
    ;
    assert(column == there * bytes + channel && 0 <= channel < bytes && 0 <= there)
        by (nonlinear_arith)
        requires
            bytes > 0,
            column >= 0,
            there == column / bytes,
            channel == column % bytes,
    ;
    assert(there < pair.tile_right(tile_x)) by (nonlinear_arith)
        requires
            there * bytes <= column,
            column < pair.tile_right(tile_x) * bytes,
            bytes > 0,
    ;
    assert(64 * tile_x <= there) by (nonlinear_arith)
        requires
            64 * tile_x * bytes <= column,
            column == there * bytes + channel,
            channel < bytes,
            bytes > 0,
    ;
    assert(there / 64 == tile_x && row / 64 == tile_y);
    assert(byte_differs(previous, frame, there, row, channel));
}

proof fn lemma_scan_near(previous: Seq<u8>, frame: FrameView, tile_y: int, count: nat)
    requires
        pair_of(previous, frame).valid(),
        0 <= tile_y < pair_of(previous, frame).tiles_y(),
        count <= pair_of(previous, frame).tiles_x() + 1,
    ensures
        ({
            let found = pair_of(previous, frame).scan(tile_y, count).0;
            forall|i: int, x: int, y: int|
                0 <= i < found.len() && #[trigger] found[i].covers(x, y) ==> near_change(
                    previous,
                    frame,
                    x,
                    y,
                )
        }),
    decreases count,
{
    let pair = pair_of(previous, frame);
    if count > 0 {
        let before = pair.scan(tile_y, (count - 1) as nat);
        let found = pair.scan(tile_y, count).0;
        lemma_scan_near(previous, frame, tile_y, (count - 1) as nat);
        lemma_scan_is_precise(pair, tile_y, (count - 1) as nat);
        lemma_scan_inside(pair, tile_y, (count - 1) as nat);
        assert forall|i: int, x: int, y: int|
            0 <= i < found.len() && #[trigger] found[i].covers(x, y) implies near_change(
            previous,
            frame,
            x,
            y,
        ) by {
            if i < before.0.len() {
                assert(found[i] == before.0[i]);
            } else {
                let start = before.1->Some_0;
                assert(found[i] == pair.run_rect(start, count - 1, tile_y));
                assert(64 * start <= x < 64 * (count - 1));
                assert(64 * tile_y <= y < 64 * tile_y + 64);
                let tile_x = x / 64;
                assert(start <= tile_x < count - 1);
                assert(y / 64 == tile_y);
                assert(pair.tile_changed(tile_x, tile_y));
                lemma_tile_has_change(previous, frame, tile_x, tile_y, x, y);
            }
        }
    }
}

proof fn lemma_regions_near(previous: Seq<u8>, frame: FrameView, rows: nat)
    requires
        pair_of(previous, frame).valid(),
        rows <= pair_of(previous, frame).tiles_y(),
    ensures
        ({
            let found = pair_of(previous, frame).regions(rows);
            forall|i: int, x: int, y: int|
                0 <= i < found.len() && #[trigger] found[i].covers(x, y) ==> near_change(
                    previous,
                    frame,
                    x,
                    y,
                )
        }),
    decreases rows,
{
    let pair = pair_of(previous, frame);
    if rows > 0 {
        let before = pair.regions((rows - 1) as nat);
        let row = pair.row_regions(rows - 1);
        let found = pair.regions(rows);
        lemma_regions_near(previous, frame, (rows - 1) as nat);
        lemma_scan_near(previous, frame, rows - 1, (pair.tiles_x() + 1) as nat);
        assert forall|i: int, x: int, y: int|
            0 <= i < found.len() && #[trigger] found[i].covers(x, y) implies near_change(
            previous,
            frame,
            x,
            y,
        ) by {
            if i < before.len() {
                assert(found[i] == before[i]);
                assert(before[i].covers(x, y));
            } else {
                assert(found[i] == row[i - before.len()]);
                assert(row[i - before.len()].covers(x, y));
            }
        }
    }
}

/// Nothing far from a change is reported: each pixel that is reported shares a square of sixty-four by
/// sixty-four pixels with one that differs, as long as the list is not taken together.
pub proof fn law_reports_stay_near_the_changes(
    last: FrameView,
    frame: FrameView,
    index: int,
    x: int,
    y: int,
)
    requires
        last.facts(),
        frame.facts(),
        last.layout == frame.layout,
        0 <= index < SeenFrame::of(last).reported(frame).len(),
        SeenFrame::of(last).reported(frame).len() > 1 || !some_pixel_changed(
            pair_of(last.data, frame),
        ) || pair_of(last.data, frame).regions(pair_of(last.data, frame).tiles_y() as nat).len()
            <= 256,
        SeenFrame::of(last).reported(frame)[index].covers(x, y),
    ensures
        near_change(last.data, frame, x, y),
{
    let pair = pair_of(last.data, frame);
    law_changes_between_frames(last, frame);
    assert(pair.width * pair.pixel_bytes == pair.pixel_bytes * pair.width) by (nonlinear_arith);
    lemma_regions_near(last.data, frame, pair.tiles_y() as nat);
    let found = pair.regions(pair.tiles_y() as nat);
    assert(found[index].covers(x, y));
}

/// Every pixel that differs is reported: a byte of it that is not what it was in the last frame of the
/// same size puts it inside one of the rectangles. Of any other frame all is reported.
pub proof fn law_every_differing_pixel_is_reported(
    last: FrameView,
    frame: FrameView,
    x: int,
    y: int,
    channel: int,
)
    requires
        last.facts(),
        frame.facts(),
        0 <= x < frame.layout.width(),
        0 <= y < frame.layout.height(),
        0 <= channel < (if frame.layout.pixel_format() == PixelFormat::Rgb24 {
            3int
        } else {
            4int
        }),
    ensures
        ({
            let bytes: int = if frame.layout.pixel_format() == PixelFormat::Rgb24 {
                3
            } else {
                4
            };
            let at = y * frame.layout.stride() + (x * bytes + channel);
            let same = last.layout.width() == frame.layout.width() && last.layout.height()
                == frame.layout.height() && last.layout.stride() == frame.layout.stride();
            let reported = SeenFrame::of(last).reported(frame);
            &&& !same || last.data[at] != frame.data[at] ==> exists|i: int|
                0 <= i < reported.len() && (#[trigger] reported[i]).x <= x < reported[i].x
                    + reported[i].width && reported[i].y <= y < reported[i].y + reported[i].height
            &&& !same ==> reported == seq![
                DamageRect {
                    x: 0,
                    y: 0,
                    width: frame.layout.width(),
                    height: frame.layout.height(),
                },
            ]
        }),
{
    let detector = SeenFrame::of(last);
    let pair = pair_of(last.data, frame);
    let reported = detector.reported(frame);
    if detector.comparable(frame) {
        if pair.differs(y, x * pair.pixel_bytes + channel) {
            law_every_change_is_reported(detector, frame, x, y, channel);
            let i = choose|i: int|
                0 <= i < detector.reported(frame).len() && (#[trigger] detector.reported(
                    frame,
                )[i]).covers(x, y);
            assert(reported[i].covers(x, y));
        }
    } else {
        assert(reported[0].x <= x);
    }
}

} // verus!
