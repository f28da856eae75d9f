//! Updates that carry only the changed parts of a desktop.
use crate::desktop::pack_bits::{
    law_unpack_reads_back_pack, pack_bits, packed, unpack_bits, unpacked,
};
use crate::error::{DcError, DcErrorView};
use crate::media::frame::{DamageRect, FrameView, PixelFormat, VideoFrame};
use crate::media::output::lemma_row_in_buffer;
use crate::protocol::types::{DesktopRect, MessageView, WireMessage, MAX_DESKTOP_REGIONS};
use vstd::prelude::*;

verus! {

pub const REGION_ENCODING_RAW: u8 = 0;

pub const REGION_ENCODING_PACK_BITS: u8 = 1;

/// A rectangle as it goes over the wire.
pub open spec fn wire_rect(rect: DamageRect) -> DesktopRect {
    DesktopRect { x: rect.x, y: rect.y, width: rect.width, height: rect.height }
}

/// The rectangle is not empty and lies inside a desktop of the given size.
pub open spec fn wire_rect_inside(rect: DesktopRect, width: u32, height: u32) -> bool {
    &&& rect.width > 0
    &&& rect.height > 0
    &&& rect.x + rect.width <= width
    &&& rect.y + rect.height <= height
}

/// The pixels of part of one row of a BGRA frame.
pub open spec fn row_pixels(frame: FrameView, x: int, y: int, width: int) -> Seq<u8> {
    let start = y * frame.layout.stride() + 4 * x;
    frame.data.subrange(start, start + 4 * width)
}

/// The pixels of the first `rows` rows of a rectangle, row after row.
pub open spec fn rect_rows(frame: FrameView, rect: DamageRect, rows: nat) -> Seq<u8>
    decreases rows,
{
    if rows == 0 {
        Seq::empty()
    } else {
        rect_rows(frame, rect, (rows - 1) as nat) + row_pixels(
            frame,
            rect.x as int,
            rect.y + rows - 1,
            rect.width as int,
        )
    }
}

/// The pixels of a list of rectangles, one rectangle after the other.
pub open spec fn rects_pixels(frame: FrameView, rects: Seq<DamageRect>) -> Seq<u8>
    decreases rects.len(),
{
    if rects.len() == 0 {
        Seq::empty()
    } else {
        rects_pixels(frame, rects.drop_last()) + rect_rows(
            frame,
            rects.last(),
            rects.last().height as nat,
        )
    }
}

/// The number of pixels in a list of rectangles.
pub open spec fn area_sum(rects: Seq<DamageRect>) -> nat
    decreases rects.len(),
{
    if rects.len() == 0 {
        0
    } else {
        area_sum(rects.drop_last()) + rects.last().width as nat * rects.last().height as nat
    }
}

/// The number of pixels in a list of rectangles.
pub fn changed_area(regions: &[DamageRect]) -> (area: u64)
    requires
        area_sum(regions@) <= u64::MAX,
    ensures
        area == area_sum(regions@),
{
    let mut area: u64 = 0;
    let mut index: usize = 0;
    assert(regions@.take(0) =~= Seq::empty());
    assert(regions@.take(regions@.len() as int) =~= regions@);
    while index < regions.len()
        invariant
            index <= regions@.len(),
            area == area_sum(regions@.take(index as int)),
            area_sum(regions@) <= u64::MAX,
            regions@.take(regions@.len() as int) == regions@,
        decreases regions@.len() - index,
    {
        let region = regions[index];
        proof {
            let more = regions@.take(index + 1);
            assert(more.drop_last() =~= regions@.take(index as int));
            lemma_area_grows(regions@, index + 1, regions@.len() as int);
            assert(region.width as nat * region.height as nat <= 0xffff_ffff * 0xffff_ffff)
                by (nonlinear_arith)
                requires
                    region.width <= 0xffff_ffff,
                    region.height <= 0xffff_ffff,
            ;
        }
        area = area + region.width as u64 * region.height as u64;
        index = index + 1;
    }
    area
}

proof fn lemma_area_grows(rects: Seq<DamageRect>, few: int, many: int)
    requires
        0 <= few <= many <= rects.len(),
    ensures
        area_sum(rects.take(few)) <= area_sum(rects.take(many)),
    decreases many - few,
{
    if few < many {
        lemma_area_grows(rects, few, many - 1);
        assert(rects.take(many).drop_last() =~= rects.take(many - 1));
    }
}

fn is_wire_rect_inside(rect: &DesktopRect, width: u32, height: u32) -> (result: bool)
    ensures
        result == wire_rect_inside(*rect, width, height),
{
    rect.width > 0 && rect.height > 0 && rect.width <= width && rect.height <= height && rect.x
        <= width - rect.width && rect.y <= height - rect.height
}

/// The failure for a rectangle outside the frame.
pub open spec fn outside_frame() -> DcErrorView {
    DcErrorView::Codec("desktop update region is outside the frame"@)
}

/// Every rectangle of the list lies inside a frame of the given size.
pub open spec fn all_inside(rects: Seq<DamageRect>, width: u32, height: u32) -> bool {
    forall|i: int| 0 <= i < rects.len() ==> (#[trigger] rects[i]).inside(width, height)
}

/// Why a region update cannot be made, if it cannot.
pub open spec fn update_failure(frame: FrameView, rects: Seq<DamageRect>) -> Option<DcErrorView> {
    if frame.layout.pixel_format() != PixelFormat::Bgra32 {
        Some(DcErrorView::Unsupported("region encoding currently requires BGRA32 input"@))
    } else if rects.len() == 0 || rects.len() > MAX_DESKTOP_REGIONS {
        Some(DcErrorView::InvalidInput("region update has an invalid region count"@))
    } else if !all_inside(rects, frame.layout.width(), frame.layout.height()) {
        Some(outside_frame())
    } else if frame.timestamp.nanos / 1_000_000 > u64::MAX {
        Some(DcErrorView::InvalidInput("frame timestamp exceeds protocol range"@))
    } else {
        None
    }
}

/// The message that carries the pixels of the given rectangles: run-length coded where that is
/// shorter, else as they are.
pub open spec fn update_message(
    frame: FrameView,
    rects: Seq<DamageRect>,
    sequence: u64,
) -> MessageView {
    let raw = rects_pixels(frame, rects);
    let shorter = packed(raw).len() < raw.len();
    MessageView::DesktopUpdate {
        sequence,
        timestamp_millis: (frame.timestamp.nanos / 1_000_000) as u64,
        desktop_width: frame.layout.width(),
        desktop_height: frame.layout.height(),
        encoding: if shorter {
            REGION_ENCODING_PACK_BITS
        } else {
            REGION_ENCODING_RAW
        },
        regions: rects.map_values(|rect: DamageRect| wire_rect(rect)),
        data: if shorter {
            packed(raw)
        } else {
            raw
        },
    }
}

/// Whether the pixels of the rectangles can be held, as they are and run-length coded. Where an
/// update was made they were.
pub open spec fn fits_memory(frame: FrameView, rects: Seq<DamageRect>) -> bool {
    &&& rects_pixels(frame, rects).len() <= usize::MAX
    &&& packed(rects_pixels(frame, rects)).len() <= usize::MAX
}

/// Appends the pixels of one rectangle.
fn put_rect_pixels(out: &mut Vec<u8>, frame: &VideoFrame, rect: &DamageRect)
    requires
        frame@.layout.pixel_format() == PixelFormat::Bgra32,
        rect.inside(frame@.layout.width(), frame@.layout.height()),
    ensures
        final(out)@ == old(out)@ + rect_rows(frame@, *rect, rect.height as nat),
{
    let data = frame.data();
    let layout = frame.layout();
    let stride: usize = layout.stride();
    let size = layout.size();
    let frame_height: u32 = size.height();
    let mut row: u32 = 0;
    assert(out@ =~= old(out)@ + rect_rows(frame@, *rect, 0));
    while row < rect.height
        invariant
            row <= rect.height,
            rect.inside(frame@.layout.width(), frame@.layout.height()),
            frame@.facts(),
            frame@.layout.pixel_format() == PixelFormat::Bgra32,
            frame_height == frame@.layout.height(),
            stride == frame@.layout.stride(),
            data@ == frame@.data,
            out@ == old(out)@ + rect_rows(frame@, *rect, row as nat),
        decreases rect.height - row,
    {
        let y: u32 = rect.y + row;
        proof {
            lemma_row_in_buffer(stride as int, y as int, frame_height as int);
        }
        let start: usize = y as usize * stride + rect.x as usize * 4;
        let end: usize = start + rect.width as usize * 4;
        crate::bytes::put_slice(out, vstd::slice::slice_subrange(data, start, end));
        assert(out@ =~= old(out)@ + rect_rows(frame@, *rect, (row + 1) as nat));
        row = row + 1;
    }
}

/// Makes a message that carries the pixels of the given rectangles of a frame.
pub fn encode_region_update(frame: &VideoFrame, regions: &[DamageRect], sequence: u64) -> (result:
    Result<WireMessage, DcError>)
    ensures
        match result {
            Ok(message) => {
                &&& update_failure(frame@, regions@) is None
                &&& message@ == update_message(frame@, regions@, sequence)
                &&& fits_memory(frame@, regions@)
            },
            Err(e) => update_failure(frame@, regions@) == Some(e@),
        },
{
    let layout = frame.layout();
    if layout.pixel_format() != PixelFormat::Bgra32 {
        return Err(DcError::unsupported("region encoding currently requires BGRA32 input"));
    }
    if regions.len() == 0 || regions.len() > MAX_DESKTOP_REGIONS {
        return Err(DcError::invalid_input("region update has an invalid region count"));
    }
    let size = layout.size();
    let width: u32 = size.width();
    let height: u32 = size.height();
    let mut raw: Vec<u8> = Vec::new();
    let mut wire_regions: Vec<DesktopRect> = Vec::with_capacity(regions.len());
    let mut index: usize = 0;
    let ghost to_wire = |rect: DamageRect| wire_rect(rect);
    assert(regions@.take(0) =~= Seq::empty());
    while index < regions.len()
        invariant
            index <= regions@.len(),
            width == frame@.layout.width(),
            height == frame@.layout.height(),
            frame@.layout.pixel_format() == PixelFormat::Bgra32,
            0 < regions@.len() <= MAX_DESKTOP_REGIONS,
            to_wire == (|rect: DamageRect| wire_rect(rect)),
            all_inside(regions@.take(index as int), width, height),
            raw@ == rects_pixels(frame@, regions@.take(index as int)),
            wire_regions@ == regions@.take(index as int).map_values(to_wire),
        decreases regions@.len() - index,
    {
        let region = regions[index];
        if !region.is_inside(width, height) {
            assert(!regions@[index as int].inside(width, height));
            return Err(DcError::codec("desktop update region is outside the frame"));
        }
        put_rect_pixels(&mut raw, frame, &region);
        wire_regions.push(
            DesktopRect {
                x: region.x,
                y: region.y,
                width: region.width,
                height: region.height,
            },
        );
        proof {
            let more = regions@.take(index + 1);
            assert(more.drop_last() =~= regions@.take(index as int));
            assert(more.map_values(to_wire) =~= regions@.take(index as int).map_values(
                to_wire,
            ).push(wire_rect(region)));
            assert forall|i: int| 0 <= i < more.len() implies (#[trigger] more[i]).inside(
                width,
                height,
            ) by {
                if i < index {
                    assert(regions@.take(index as int)[i] == more[i]);
                }
            }
        }
        index = index + 1;
    }
    assert(regions@.take(index as int) =~= regions@);
    let raw_len: usize = raw.len();
    let compressed = pack_bits(raw.as_slice());
    let compressed_len: usize = compressed.len();
    let (encoding, data) = if compressed_len < raw_len {
        (REGION_ENCODING_PACK_BITS, compressed)
    } else {
        (REGION_ENCODING_RAW, raw)
    };
    let millis: u128 = frame.timestamp().as_millis();
    if millis > 0xffff_ffff_ffff_ffff {
        return Err(DcError::invalid_input("frame timestamp exceeds protocol range"));
    }
    Ok(
        WireMessage::DesktopUpdate {
            sequence,
            timestamp_millis: millis as u64,
            desktop_width: width,
            desktop_height: height,
            encoding,
            regions: wire_regions,
            data,
        },
    )
}

/// The number of bytes in the pixels of a list of wire rectangles, or why it is refused.
pub open spec fn expected_bytes(rects: Seq<DesktopRect>, width: u32, height: u32) -> Result<
    nat,
    DcErrorView,
>
    decreases rects.len(),
{
    if rects.len() == 0 {
        Ok(0)
    } else {
        match expected_bytes(rects.drop_last(), width, height) {
            Err(error) => Err(error),
            Ok(total) => {
                let rect = rects.last();
                let bytes = rect.width as nat * rect.height as nat * 4;
                if !wire_rect_inside(rect, width, height) {
                    Err(outside_frame())
                } else if bytes > u32::MAX {
                    Err(DcErrorView::Codec("desktop region size overflowed"@))
                } else if total + bytes > usize::MAX {
                    Err(DcErrorView::Codec("desktop update size overflowed"@))
                } else {
                    Ok(total + bytes)
                }
            },
        }
    }
}

/// The pixels that an update carries, or why it is refused.
pub open spec fn region_payload(message: MessageView) -> Result<Seq<u8>, DcErrorView> {
    match message {
        MessageView::DesktopUpdate {
            desktop_width,
            desktop_height,
            encoding,
            regions,
            data,
            ..
        } => match expected_bytes(regions, desktop_width, desktop_height) {
            Err(error) => Err(error),
            Ok(expected) => if encoding == REGION_ENCODING_RAW {
                if data.len() == expected {
                    Ok(data)
                } else {
                    Err(DcErrorView::Codec("raw desktop update has the wrong payload size"@))
                }
            } else if encoding == REGION_ENCODING_PACK_BITS {
                unpacked(data, expected)
            } else {
                Err(DcErrorView::Codec("unknown desktop region encoding"@))
            },
        },
        _ => Err(DcErrorView::InvalidInput("expected desktop update"@)),
    }
}

proof fn lemma_expected_failure(rects: Seq<DesktopRect>, few: int, width: u32, height: u32)
    requires
        0 <= few <= rects.len(),
        expected_bytes(rects.take(few), width, height) is Err,
    ensures
        expected_bytes(rects, width, height) == expected_bytes(rects.take(few), width, height),
    decreases rects.len() - few,
{
    if few < rects.len() {
        let more = rects.take(few + 1);
        assert(more.drop_last() =~= rects.take(few));
        lemma_expected_failure(rects, few + 1, width, height);
    } else {
        assert(rects.take(few) =~= rects);
    }
}

fn expected_len(regions: &Vec<DesktopRect>, width: u32, height: u32) -> (result: Result<
    usize,
    DcError,
>)
    ensures
        match result {
            Ok(total) => expected_bytes(regions@, width, height) == Ok::<nat, DcErrorView>(
                total as nat,
            ),
            Err(e) => expected_bytes(regions@, width, height) == Err::<nat, DcErrorView>(e@),
        },
{
    let mut total: usize = 0;
    let mut index: usize = 0;
    assert(regions@.take(0) =~= Seq::empty());
    while index < regions.len()
        invariant
            index <= regions@.len(),
            expected_bytes(regions@.take(index as int), width, height) == Ok::<nat, DcErrorView>(
                total as nat,
            ),
        decreases regions@.len() - index,
    {
        let region = regions[index];
        let ghost more = regions@.take(index + 1);
        assert(more.drop_last() =~= regions@.take(index as int));
        if !is_wire_rect_inside(&region, width, height) {
            proof {
                lemma_expected_failure(regions@, index + 1, width, height);
            }
            return Err(DcError::codec("desktop update region is outside the frame"));
        }
        let bytes: Option<u32> = match region.width.checked_mul(region.height) {
            Some(pixels) => pixels.checked_mul(4),
            None => None,
        };
        let bytes: u32 = match bytes {
            Some(bytes) => bytes,
            None => {
                proof {
                    lemma_expected_failure(regions@, index + 1, width, height);
                }
                return Err(DcError::codec("desktop region size overflowed"));
            },
        };
        total = match total.checked_add(bytes as usize) {
            Some(sum) => sum,
            None => {
                proof {
                    lemma_expected_failure(regions@, index + 1, width, height);
                }
                return Err(DcError::codec("desktop update size overflowed"));
            },
        };
        index = index + 1;
    }
    assert(regions@.take(index as int) =~= regions@);
    Ok(total)
}

/// The pixels that an update carries.
pub fn decode_region_payload(message: &WireMessage) -> (result: Result<Vec<u8>, DcError>)
    ensures
        match result {
            Ok(data) => region_payload(message@) == Ok::<Seq<u8>, DcErrorView>(data@),
            Err(e) => region_payload(message@) == Err::<Seq<u8>, DcErrorView>(e@),
        },
{
    match message {
        WireMessage::DesktopUpdate {
            desktop_width,
            desktop_height,
            encoding,
            regions,
            data,
            ..
        } => {
            let expected: usize = expected_len(regions, *desktop_width, *desktop_height)?;
            if *encoding == REGION_ENCODING_RAW {
                if data.len() == expected {
                    Ok(vstd::slice::slice_to_vec(data.as_slice()))
                } else {
                    Err(DcError::codec("raw desktop update has the wrong payload size"))
                }
            } else if *encoding == REGION_ENCODING_PACK_BITS {
                unpack_bits(data.as_slice(), expected)
            } else {
                Err(DcError::codec("unknown desktop region encoding"))
            }
        },
        _ => Err(DcError::invalid_input("expected desktop update")),
    }
}

/// The pixels of a rectangle take four bytes each.
pub proof fn lemma_rect_rows_len(frame: FrameView, rect: DamageRect, rows: nat)
    requires
        frame.facts(),
        frame.layout.pixel_format() == PixelFormat::Bgra32,
        rect.inside(frame.layout.width(), frame.layout.height()),
        rows <= rect.height,
    ensures
        rect_rows(frame, rect, rows).len() == rows * rect.width * 4,
    decreases rows,
{
    if rows > 0 {
        lemma_rect_rows_len(frame, rect, (rows - 1) as nat);
        lemma_row_in_buffer(
            frame.layout.stride() as int,
            rect.y + rows - 1,
            frame.layout.height() as int,
        );
        assert(rows * rect.width * 4 == (rows - 1) * rect.width * 4 + rect.width * 4)
            by (nonlinear_arith)
            requires
                rows > 0,
        ;
    } else {
        assert(0 * rect.width * 4 == 0) by (nonlinear_arith);
    }
}

/// The length that a receiver expects is the length of the pixels sent.
proof fn lemma_expected_is_sent(frame: FrameView, rects: Seq<DamageRect>)
    requires
        frame.facts(),
        frame.layout.pixel_format() == PixelFormat::Bgra32,
        all_inside(rects, frame.layout.width(), frame.layout.height()),
        rects_pixels(frame, rects).len() <= usize::MAX,
        forall|i: int|
            0 <= i < rects.len() ==> (#[trigger] rects[i]).width as nat * rects[i].height as nat * 4
                <= u32::MAX,
    ensures
        expected_bytes(
            rects.map_values(|rect: DamageRect| wire_rect(rect)),
            frame.layout.width(),
            frame.layout.height(),
        ) == Ok::<nat, DcErrorView>(rects_pixels(frame, rects).len()),
    decreases rects.len(),
{
    let to_wire = |rect: DamageRect| wire_rect(rect);
    let wire = rects.map_values(to_wire);
    if rects.len() > 0 {
        let front = rects.drop_last();
        let last = rects.last();
        assert forall|i: int| 0 <= i < front.len() implies (#[trigger] front[i]).inside(
            frame.layout.width(),
            frame.layout.height(),
        ) && front[i].width as nat * front[i].height as nat * 4 <= u32::MAX by {
            assert(front[i] == rects[i]);
        }
        lemma_expected_is_sent(frame, front);
        assert(wire.drop_last() =~= front.map_values(to_wire));
        assert(last.inside(frame.layout.width(), frame.layout.height()));
        lemma_rect_rows_len(frame, last, last.height as nat);
        assert(last.height * last.width * 4 == last.width as nat * last.height as nat * 4)
            by (nonlinear_arith);
        assert(wire.last() == wire_rect(last));
    }
}

/// The pixels of a list of rectangles take four bytes each.
proof fn lemma_rects_pixels_len(frame: FrameView, rects: Seq<DamageRect>)
    requires
        frame.facts(),
        frame.layout.pixel_format() == PixelFormat::Bgra32,
        all_inside(rects, frame.layout.width(), frame.layout.height()),
    ensures
        rects_pixels(frame, rects).len() == 4 * area_sum(rects),
    decreases rects.len(),
{
    if rects.len() > 0 {
        let front = rects.drop_last();
        let last = rects.last();
        assert forall|i: int| 0 <= i < front.len() implies (#[trigger] front[i]).inside(
            frame.layout.width(),
            frame.layout.height(),
        ) by {
            assert(front[i] == rects[i]);
        }
        lemma_rects_pixels_len(frame, front);
        assert(last.inside(frame.layout.width(), frame.layout.height()));
        lemma_rect_rows_len(frame, last, last.height as nat);
        assert(last.height * last.width * 4 == 4 * (last.width as nat * last.height as nat))
            by (nonlinear_arith);
    }
}

/// Decoding an update gives back the pixels it was made of, four bytes for each, where each
/// rectangle holds less than four gigabytes of pixels: larger ones are refused on arrival.
pub proof fn law_update_carries_the_pixels(
    frame: FrameView,
    rects: Seq<DamageRect>,
    sequence: u64,
)
    requires
        frame.facts(),
        update_failure(frame, rects) is None,
        fits_memory(frame, rects),
        forall|i: int|
            0 <= i < rects.len() ==> (#[trigger] rects[i]).width as nat * rects[i].height as nat * 4
                <= u32::MAX,
    ensures
        region_payload(update_message(frame, rects, sequence)) == Ok::<Seq<u8>, DcErrorView>(
            rects_pixels(frame, rects),
        ),
        rects_pixels(frame, rects).len() == 4 * area_sum(rects),
{
    lemma_expected_is_sent(frame, rects);
    lemma_rects_pixels_len(frame, rects);
    law_unpack_reads_back_pack(rects_pixels(frame, rects));
}

/// The area of rectangles adds up.
pub proof fn law_area_adds_up(rects: Seq<DamageRect>, rect: DamageRect)
    ensures
        area_sum(Seq::empty()) == 0,
        area_sum(rects.push(rect)) == area_sum(rects) + rect.width * rect.height,
{
    assert(rects.push(rect).drop_last() =~= rects);
}

/// Up to 256 rectangles, none of them empty and all on the frame, can be sent of any frame of
/// four bytes a pixel.
pub proof fn law_regions_on_the_frame_can_be_sent(frame: FrameView, rects: Seq<DamageRect>)
    requires
        frame.timestamp.nanos / 1_000_000 <= u64::MAX,
    ensures
        update_failure(frame, rects) is None <==> {
            &&& frame.layout.pixel_format() == PixelFormat::Bgra32
            &&& 0 < rects.len() <= 256
            &&& forall|i: int|
                0 <= i < rects.len() ==> {
                    &&& (#[trigger] rects[i]).width > 0
                    &&& rects[i].height > 0
                    &&& rects[i].x + rects[i].width <= frame.layout.width()
                    &&& rects[i].y + rects[i].height <= frame.layout.height()
                }
        },
{
    if update_failure(frame, rects) is None {
        assert forall|i: int| 0 <= i < rects.len() implies {
            &&& (#[trigger] rects[i]).width > 0
            &&& rects[i].height > 0
            &&& rects[i].x + rects[i].width <= frame.layout.width()
            &&& rects[i].y + rects[i].height <= frame.layout.height()
        } by {
            assert(rects[i].inside(frame.layout.width(), frame.layout.height()));
        }
    }
}

/// A region update names the frame's size and time and its rectangles in their order, and carries the
/// pixels as they are or packed, whichever is shorter.
pub proof fn law_update_names_its_rectangles(
    frame: FrameView,
    rects: Seq<DamageRect>,
    sequence: u64,
)
    requires
        frame.timestamp.nanos / 1_000_000 <= u64::MAX,
    ensures
        ({
            let message = update_message(frame, rects, sequence);
            let raw = rects_pixels(frame, rects);
            &&& message is DesktopUpdate
            &&& message->DesktopUpdate_sequence == sequence
            &&& message->DesktopUpdate_timestamp_millis * 1_000_000 <= frame.timestamp.nanos < (
            message->DesktopUpdate_timestamp_millis + 1) * 1_000_000
            &&& message->desktop_width == frame.layout.width()
            &&& message->desktop_height == frame.layout.height()
            &&& message->DesktopUpdate_regions.len() == rects.len()
            &&& forall|i: int|
                0 <= i < rects.len() ==> {
                    &&& (#[trigger] message->DesktopUpdate_regions[i]).x == rects[i].x
                    &&& message->DesktopUpdate_regions[i].y == rects[i].y
                    &&& message->DesktopUpdate_regions[i].width == rects[i].width
                    &&& message->DesktopUpdate_regions[i].height == rects[i].height
                }
            &&& message->DesktopUpdate_encoding == 0 ==> message->DesktopUpdate_data == raw
            &&& message->DesktopUpdate_encoding == 1 ==> message->DesktopUpdate_data == packed(raw)
            &&& message->DesktopUpdate_encoding == 0 || message->DesktopUpdate_encoding == 1
            &&& message->DesktopUpdate_data.len() <= raw.len()
            &&& packed(raw).len() < raw.len() ==> message->DesktopUpdate_encoding == 1
        }),
{
}

/// The bytes that rectangles take add up, four for each pixel, and one that is empty or reaches
/// beyond the desktop spoils all.
pub proof fn law_expected_bytes_add_up(
    rects: Seq<DesktopRect>,
    rect: DesktopRect,
    width: u32,
    height: u32,
)
    requires
        rect.width * rect.height * 4 <= u32::MAX,
    ensures
        expected_bytes(Seq::empty(), width, height) == Ok::<nat, DcErrorView>(0),
        expected_bytes(rects, width, height) is Err ==> expected_bytes(
            rects.push(rect),
            width,
            height,
        ) is Err,
        rect.width == 0 || rect.height == 0 || rect.x + rect.width > width || rect.y + rect.height
            > height ==> expected_bytes(rects.push(rect), width, height) is Err,
        ({
            let total = expected_bytes(rects, width, height)->Ok_0;
            let more = rect.width * rect.height * 4;
            expected_bytes(rects, width, height) is Ok && total + more <= usize::MAX && rect.width
                > 0 && rect.height > 0 && rect.x + rect.width <= width && rect.y + rect.height
                <= height ==> expected_bytes(rects.push(rect), width, height) == Ok::<
                nat,
                DcErrorView,
            >((total + more) as nat)
        }),
{
    assert(rects.push(rect).drop_last() =~= rects);
}

/// Of an update that is not packed the pixels are its data, and only data of the right length is
/// taken. An update that is packed is taken where it unpacks to that length, and no other packing is
/// known.
pub proof fn law_only_whole_payloads_are_taken(message: MessageView)
    requires
        message is DesktopUpdate,
    ensures
        ({
            let expected = expected_bytes(
                message->DesktopUpdate_regions,
                message->desktop_width,
                message->desktop_height,
            );
            let data = message->DesktopUpdate_data;
            &&& expected is Err ==> region_payload(message) is Err
            &&& expected is Ok && message->DesktopUpdate_encoding == 0 && data.len()
                == expected->Ok_0 ==> region_payload(message) == Ok::<Seq<u8>, DcErrorView>(data)
            &&& expected is Ok && message->DesktopUpdate_encoding == 0 && data.len()
                != expected->Ok_0 ==> region_payload(message) is Err
            &&& expected is Ok && message->DesktopUpdate_encoding == 1 ==> region_payload(message)
                == unpacked(data, expected->Ok_0)
            &&& message->DesktopUpdate_encoding > 1 ==> region_payload(message) is Err
        }),
{
}

} // verus!
