//! The picture of a preview window and the events that the window reports.
use crate::error::{DcError, DcErrorView};
use crate::media::frame::{FrameView, VideoFrame};
use crate::media::pipeline::FrameSink;
use crate::protocol::types::CursorShapeView;
use crate::protocol::{CursorShape, DesktopRect, InputEvent};
use crate::text::{joined, owned};
use crate::ui::cursor::{
    draw_cursor, shape_failure, validate_cursor_shape, with_cursor, CursorState, RemoteCursor,
};
use crate::ui::keys::{map_key, physical, WindowKey};
use crate::ui::outline::{draw_outlines, inside_picture, with_outlines};
use crate::ui::picture::{
    apply_regions, convert_to_minifb, frame_pixels, on_desktop, painted, rows_available, updated,
    with_regions,
};
use vstd::prelude::*;

verus! {

/// The size of the picture that stands in until the first frame arrives.
pub open spec fn placeholder_size() -> (usize, usize) {
    (640, 360)
}

/// The state of a preview window: the desktop as it was received, the picture with the cursor on
/// it, and what is needed to tell the window's next events.
pub struct PreviewWindowSink {
    base_title: String,
    desktop_pixels: Vec<u32>,
    pixels: Vec<u32>,
    frame_size: Option<(usize, usize)>,
    last_pointer: Option<(i32, i32, u8)>,
    remote_cursor: RemoteCursor,
    outlines: bool,
    updated_regions: Vec<DesktopRect>,
}

/// The contents of a [`PreviewWindowSink`].
pub struct PreviewState {
    pub title: Seq<char>,
    pub desktop: Seq<u32>,
    pub shown: Seq<u32>,
    pub size: Option<(usize, usize)>,
    pub pointer: Option<(i32, i32, u8)>,
    pub cursor: CursorState,
    pub outlines: bool,
    pub regions: Seq<DesktopRect>,
}

impl View for PreviewWindowSink {
    type V = PreviewState;

    closed spec fn view(&self) -> PreviewState {
        PreviewState {
            title: self.base_title@,
            desktop: self.desktop_pixels@,
            shown: self.pixels@,
            size: self.frame_size,
            pointer: self.last_pointer,
            cursor: self.remote_cursor@,
            outlines: self.outlines,
            regions: self.updated_regions@,
        }
    }
}

impl PreviewState {
    /// A window that shows nothing yet.
    pub open spec fn empty(title: Seq<char>) -> PreviewState {
        PreviewState {
            title,
            desktop: Seq::empty(),
            shown: Seq::empty(),
            size: None,
            pointer: None,
            cursor: CursorState { visible: false, x: 0, y: 0, shape: None },
            outlines: false,
            regions: Seq::empty(),
        }
    }

    /// The area in which the pointer is told.
    pub open spec fn area(self, window_width: usize, window_height: usize) -> (usize, usize) {
        match self.size {
            Some(size) => size,
            None => (
                if window_width == 0 {
                    1
                } else {
                    window_width
                },
                if window_height == 0 {
                    1
                } else {
                    window_height
                },
            ),
        }
    }

    /// The window after it has told what it saw.
    pub open spec fn drained(self, seen: WindowInput) -> PreviewState {
        PreviewState {
            pointer: match seen.place() {
                Some(place) => Some(place),
                None => self.pointer,
            },
            ..self
        }
    }

    /// Whether a picture of a size takes the place of the one that stood for it.
    pub open spec fn replacing(self, width: usize, height: usize) -> bool {
        self.size == Some(placeholder_size()) && (width, height) != placeholder_size()
    }

    /// The window's title with a status.
    pub open spec fn status_title(self, status: Seq<char>) -> Seq<char> {
        self.title + " | "@ + status
    }

    /// What holds of every window: the desktop has its size, the cursor can be drawn, and the
    /// regions of the last update lie inside.
    pub open spec fn facts(self) -> bool {
        &&& self.cursor.drawable()
        &&& match self.size {
            Some((width, height)) => {
                &&& self.desktop.len() == width * height
                &&& forall|i: int|
                    0 <= i < self.regions.len() ==> inside_picture(
                        #[trigger] self.regions[i],
                        width as int,
                        height as int,
                    )
            },
            None => self.regions.len() == 0,
        }
    }

    /// The picture that is shown once the desktop has a size: the desktop, on it the outlines of
    /// the last update where they are wanted, and the cursor on top.
    pub open spec fn composed(self) -> PreviewState {
        match self.size {
            None => self,
            Some((width, _)) => {
                let outlined = if self.outlines {
                    with_outlines(self.desktop, width as int, self.regions)
                } else {
                    self.desktop
                };
                PreviewState { shown: with_cursor(outlined, width as int, self.cursor), ..self }
            },
        }
    }

    /// The state that presenting a frame leaves.
    pub open spec fn presenting(self, frame: FrameView) -> PreviewState {
        PreviewState {
            desktop: frame_pixels(frame),
            size: Some((frame.layout.width() as usize, frame.layout.height() as usize)),
            regions: Seq::empty(),
            ..self
        }.composed()
    }

    /// The state that a region update leaves, and what it returns.
    pub open spec fn updating(
        self,
        width: u32,
        height: u32,
        regions: Seq<DesktopRect>,
        data: Seq<u8>,
    ) -> (PreviewState, Result<(), DcErrorView>) {
        if self.size != Some((width as usize, height as usize)) {
            (
                self,
                Err(DcErrorView::Codec("desktop update arrived before a matching full frame"@)),
            )
        } else {
            let (desktop, outcome) = updated(self.desktop, width, height, regions, data);
            match outcome {
                Ok(_) => (PreviewState { desktop, regions, ..self }.composed(), outcome),
                Err(_) => (PreviewState { desktop, ..self }, outcome),
            }
        }
    }

    /// The state that a cursor update leaves, and what it returns. The position is taken even
    /// where the shape is refused.
    pub open spec fn pointing(
        self,
        visible: bool,
        x: i32,
        y: i32,
        shape: Option<CursorShapeView>,
    ) -> (PreviewState, Result<(), DcErrorView>) {
        let moved = CursorState { visible, x: x as int, y: y as int, ..self.cursor };
        match shape {
            None => (PreviewState { cursor: moved, ..self }.composed(), Ok(())),
            Some(given) => match shape_failure(given) {
                Some(error) => (PreviewState { cursor: moved, ..self }, Err(error)),
                None => (
                    PreviewState {
                        cursor: CursorState { shape: Some(given), ..moved },
                        ..self
                    }.composed(),
                    Ok(()),
                ),
            },
        }
    }
}

/// What the window saw since it was last asked. The pointer is given in pixels of the frame.
pub struct WindowInput {
    pub pointer: Option<(i32, i32)>,
    pub left: bool,
    pub right: bool,
    pub middle: bool,
    pub delta_x: i32,
    pub delta_y: i32,
    pub pressed: Vec<WindowKey>,
    pub released: Vec<WindowKey>,
}

/// The number of the buttons that are down: left counts 1, right 2, middle 4.
pub open spec fn button_bits(left: bool, right: bool, middle: bool) -> u8 {
    ((if left {
        1int
    } else {
        0int
    }) + (if right {
        2int
    } else {
        0int
    }) + (if middle {
        4int
    } else {
        0int
    })) as u8
}

/// The events of keys that went down or up, without those that stand for no physical key.
pub open spec fn key_events(keys: Seq<WindowKey>, pressed: bool) -> Seq<InputEvent>
    decreases keys.len(),
{
    if keys.len() == 0 {
        Seq::empty()
    } else {
        let before = key_events(keys.drop_last(), pressed);
        match physical(keys.last()) {
            Some(key) => before.push(InputEvent::Key { key, pressed }),
            None => before,
        }
    }
}

impl WindowInput {
    /// The pointer's place and its buttons.
    pub open spec fn place(self) -> Option<(i32, i32, u8)> {
        match self.pointer {
            Some((x, y)) => Some((x, y, button_bits(self.left, self.right, self.middle))),
            None => None,
        }
    }

    /// The events for what was seen: the pointer where it moved or a button changed, the wheel
    /// where it turned, the keys that went down, the keys that went up.
    pub open spec fn events(self, last: Option<(i32, i32, u8)>) -> Seq<InputEvent> {
        let pointer = match self.place() {
            Some((x, y, buttons)) => if last != self.place() {
                seq![InputEvent::Pointer { x, y, buttons }]
            } else {
                Seq::empty()
            },
            None => Seq::empty(),
        };
        let wheel = if self.delta_x != 0 || self.delta_y != 0 {
            seq![InputEvent::Wheel { delta_x: self.delta_x, delta_y: self.delta_y }]
        } else {
            Seq::empty()
        };
        pointer + wheel + key_events(self.pressed@, true) + key_events(self.released@, false)
    }
}

fn push_keys(events: &mut Vec<InputEvent>, keys: &Vec<WindowKey>, pressed: bool)
    ensures
        final(events)@ == old(events)@ + key_events(keys@, pressed),
{
    let ghost before = events@;
    let mut index: usize = 0;
    assert(keys@.take(0) =~= Seq::empty());
    assert(before + key_events(keys@.take(0), pressed) =~= before);
    while index < keys.len()
        invariant
            index <= keys@.len(),
            events@ == before + key_events(keys@.take(index as int), pressed),
        decreases keys@.len() - index,
    {
        assert(keys@.take(index + 1).drop_last() =~= keys@.take(index as int));
        if let Some(key) = map_key(keys[index]) {
            events.push(InputEvent::Key { key, pressed });
            assert(events@ =~= before + key_events(keys@.take(index + 1), pressed));
        }
        index = index + 1;
    }
    assert(keys@.take(index as int) =~= keys@);
}

proof fn lemma_updated_regions(
    pixels: Seq<u32>,
    width: u32,
    height: u32,
    regions: Seq<DesktopRect>,
    data: Seq<u8>,
    offset: int,
)
    requires
        with_regions(pixels, width, height, regions, data, offset).1 is Ok,
    ensures
        forall|i: int| 0 <= i < regions.len() ==> on_desktop(#[trigger] regions[i], width, height),
    decreases regions.len(),
{
    if regions.len() > 0 {
        let rect = regions[0];
        let rows = rows_available(rect, data, offset);
        let after = painted(pixels, width as int, rect, data, offset, rows * rect.width);
        let rest = regions.drop_first();
        lemma_updated_regions(
            after,
            width,
            height,
            rest,
            data,
            offset + 4 * (rect.width * rect.height),
        );
        assert forall|i: int| 0 <= i < regions.len() implies on_desktop(
            #[trigger] regions[i],
            width,
            height,
        ) by {
            if i > 0 {
                assert(regions[i] == rest[i - 1]);
            }
        }
    }
}

impl PreviewWindowSink {
    #[verifier::type_invariant]
    spec fn well_formed(self) -> bool {
        self@.facts()
    }

    /// A window without a picture.
    pub fn new(title: &str) -> (sink: PreviewWindowSink)
        ensures
            sink@ == (PreviewState {
                title: title@,
                desktop: Seq::empty(),
                shown: Seq::empty(),
                size: None,
                pointer: None,
                cursor: CursorState { visible: false, x: 0, y: 0, shape: None },
                outlines: false,
                regions: Seq::empty(),
            }),
            sink@ == PreviewState::empty(title@),
    {
        let sink = PreviewWindowSink {
            base_title: owned(title),
            desktop_pixels: Vec::new(),
            pixels: Vec::new(),
            frame_size: None,
            last_pointer: None,
            remote_cursor: RemoteCursor::hidden(),
            outlines: false,
            updated_regions: Vec::new(),
        };
        sink
    }

    pub fn title(&self) -> (title: &str)
        ensures
            title@ == self@.title,
    {
        self.base_title.as_str()
    }

    /// The size of the frame that is shown.
    pub fn frame_size(&self) -> (size: Option<(usize, usize)>)
        ensures
            size == self@.size,
    {
        self.frame_size
    }

    /// The desktop as it was received.
    pub fn desktop_pixels(&self) -> (pixels: &[u32])
        ensures
            pixels@ == self@.desktop,
    {
        self.desktop_pixels.as_slice()
    }

    /// The picture that the window shows.
    pub fn pixels(&self) -> (pixels: &[u32])
        ensures
            pixels@ == self@.shown,
    {
        self.pixels.as_slice()
    }

    /// The title of the window that shows a status.
    pub fn set_status(&self, status: &str) -> (title: String)
        ensures
            title@ == self@.title + " | "@ + status@,
            title@ == self@.status_title(status@),
    {
        let prefix = joined(self.base_title.as_str(), " | ");
        joined(prefix.as_str(), status)
    }

    /// Turns the outlines of updated regions on or off, from the next update on.
    pub fn set_dirty_region_debug(&mut self, enabled: bool)
        ensures
            final(self)@ == (PreviewState { outlines: enabled, ..old(self)@ }),
    {
        proof {
            use_type_invariant(&*self);
        }
        self.outlines = enabled;
    }

    /// Whether a frame of this size replaces the placeholder, whose window is then opened anew.
    pub fn replaces_placeholder(&self, width: usize, height: usize) -> (replaces: bool)
        ensures
            replaces == (self@.size == Some(placeholder_size()) && (width, height)
                != placeholder_size()),
            replaces == self@.replacing(width, height),
    {
        match self.frame_size {
            Some((shown_width, shown_height)) => shown_width == 640 && shown_height == 360 && (width
                != 640 || height != 360),
            None => false,
        }
    }

    /// The size of the area in which the pointer is reported: that of the frame, or before the
    /// first frame that of the window.
    pub fn pointer_area(&self, window_width: usize, window_height: usize) -> (area: (usize, usize))
        ensures
            area == (match self@.size {
                Some(size) => size,
                None => (
                    if window_width == 0 {
                        1
                    } else {
                        window_width
                    },
                    if window_height == 0 {
                        1
                    } else {
                        window_height
                    },
                ),
            }),
            area == self@.area(window_width, window_height),
    {
        match self.frame_size {
            Some(size) => size,
            None => (
                if window_width == 0 {
                    1
                } else {
                    window_width
                },
                if window_height == 0 {
                    1
                } else {
                    window_height
                },
            ),
        }
    }

    /// Takes the whole state, leaving an empty window behind.
    fn take(&mut self) -> (taken: PreviewWindowSink)
        ensures
            taken@ == old(self)@,
            taken@.facts(),
    {
        proof {
            use_type_invariant(&*self);
        }
        let mut taken = PreviewWindowSink::new("");
        std::mem::swap(self, &mut taken);
        taken
    }

    /// The same window, showing its desktop anew.
    fn render_composited(self) -> (composed: PreviewWindowSink)
        ensures
            composed@ == self@.composed(),
    {
        proof {
            use_type_invariant(&self);
        }
        let (width, height) = match self.frame_size {
            Some(size) => size,
            None => return self,
        };
        let mut pixels = vstd::slice::slice_to_vec(self.desktop_pixels.as_slice());
        if self.outlines {
            draw_outlines(&mut pixels, width, height, self.updated_regions.as_slice());
        }
        draw_cursor(&mut pixels, width, height, &self.remote_cursor);
        PreviewWindowSink {
            base_title: self.base_title,
            desktop_pixels: self.desktop_pixels,
            pixels,
            frame_size: self.frame_size,
            last_pointer: self.last_pointer,
            remote_cursor: self.remote_cursor,
            outlines: self.outlines,
            updated_regions: self.updated_regions,
        }
    }

    /// Shows a picture before the first frame: what there is of an earlier one, else black.
    pub fn show_placeholder(&mut self, width: usize, height: usize)
        requires
            4 * (width * height) <= isize::MAX,
        ensures
            final(self)@ == (PreviewState {
                size: Some((width, height)),
                desktop: resized(old(self)@.desktop, (width * height) as nat),
                shown: resized(old(self)@.shown, (width * height) as nat),
                regions: Seq::empty(),
                ..old(self)@
            }),
    {
        proof {
            assert(width * height >= 0) by (nonlinear_arith)
                requires
                    width >= 0,
                    height >= 0,
            ;
        }
        let taken = self.take();
        let count: usize = width * height;
        let mut desktop_pixels = taken.desktop_pixels;
        let mut pixels = taken.pixels;
        resize(&mut desktop_pixels, count);
        resize(&mut pixels, count);
        *self = PreviewWindowSink {
            base_title: taken.base_title,
            desktop_pixels,
            pixels,
            frame_size: Some((width, height)),
            last_pointer: taken.last_pointer,
            remote_cursor: taken.remote_cursor,
            outlines: taken.outlines,
            updated_regions: Vec::new(),
        };
    }

    /// Paints the regions of an update with pixels of four bytes each. Until a frame of the same
    /// size was presented an update is refused.
    pub fn apply_bgra_regions(
        &mut self,
        desktop_width: u32,
        desktop_height: u32,
        regions: &[DesktopRect],
        data: &[u8],
    ) -> (result: Result<(), DcError>)
        ensures
            final(self)@ == old(self)@.updating(
                desktop_width,
                desktop_height,
                regions@,
                data@,
            ).0,
            match result {
                Ok(_) => old(self)@.updating(
                    desktop_width,
                    desktop_height,
                    regions@,
                    data@,
                ).1 is Ok,
                Err(error) => old(self)@.updating(
                    desktop_width,
                    desktop_height,
                    regions@,
                    data@,
                ).1 == Err::<(), DcErrorView>(error@),
            },
    {
        let matching = match self.frame_size {
            Some((width, height)) => width == desktop_width as usize && height
                == desktop_height as usize,
            None => false,
        };
        if !matching {
            return Err(DcError::codec("desktop update arrived before a matching full frame"));
        }
        let taken = self.take();
        let mut desktop_pixels = taken.desktop_pixels;
        let outcome = apply_regions(
            &mut desktop_pixels,
            desktop_width,
            desktop_height,
            regions,
            data,
        );
        match outcome {
            Ok(_) => {
                proof {
                    lemma_updated_regions(
                        old(self)@.desktop,
                        desktop_width,
                        desktop_height,
                        regions@,
                        data@,
                        0,
                    );
                }
                let updated = PreviewWindowSink {
                    base_title: taken.base_title,
                    desktop_pixels,
                    pixels: taken.pixels,
                    frame_size: taken.frame_size,
                    last_pointer: taken.last_pointer,
                    remote_cursor: taken.remote_cursor,
                    outlines: taken.outlines,
                    updated_regions: vstd::slice::slice_to_vec(regions),
                };
                *self = updated.render_composited();
                Ok(())
            },
            Err(error) => {
                *self = PreviewWindowSink {
                    base_title: taken.base_title,
                    desktop_pixels,
                    pixels: taken.pixels,
                    frame_size: taken.frame_size,
                    last_pointer: taken.last_pointer,
                    remote_cursor: taken.remote_cursor,
                    outlines: taken.outlines,
                    updated_regions: taken.updated_regions,
                };
                Err(error)
            },
        }
    }

    /// Moves the remote cursor, and gives it a new shape where one came along.
    pub fn update_remote_cursor(
        &mut self,
        visible: bool,
        x: i32,
        y: i32,
        shape: Option<CursorShape>,
    ) -> (result: Result<(), DcError>)
        ensures
            ({
                let given = match shape {
                    Some(shape) => Some(shape@),
                    None => None,
                };
                &&& final(self)@ == old(self)@.pointing(visible, x, y, given).0
                &&& match result {
                    Ok(_) => old(self)@.pointing(visible, x, y, given).1 is Ok,
                    Err(error) => old(self)@.pointing(visible, x, y, given).1 == Err::<
                        (),
                        DcErrorView,
                    >(error@),
                }
            }),
    {
        let taken = self.take();
        let mut outcome: Result<(), DcError> = Ok(());
        let mut kept = taken.remote_cursor.shape;
        if let Some(shape) = shape {
            outcome = validate_cursor_shape(&shape);
            if outcome.is_ok() {
                kept = Some(shape);
            }
        }
        let moved = PreviewWindowSink {
            base_title: taken.base_title,
            desktop_pixels: taken.desktop_pixels,
            pixels: taken.pixels,
            frame_size: taken.frame_size,
            last_pointer: taken.last_pointer,
            remote_cursor: RemoteCursor { visible, x, y, shape: kept },
            outlines: taken.outlines,
            updated_regions: taken.updated_regions,
        };
        match outcome {
            Ok(_) => {
                *self = moved.render_composited();
            },
            Err(_) => {
                *self = moved;
            },
        }
        outcome
    }

    /// The events for what the window saw since it was last asked.
    pub fn drain_input_events(&mut self, seen: &WindowInput) -> (events: Vec<InputEvent>)
        ensures
            events@ == seen.events(old(self)@.pointer),
            final(self)@ == (PreviewState {
                pointer: match seen.place() {
                    Some(place) => Some(place),
                    None => old(self)@.pointer,
                },
                ..old(self)@
            }),
            final(self)@ == old(self)@.drained(*seen),
    {
        proof {
            use_type_invariant(&*self);
        }
        let mut events: Vec<InputEvent> = Vec::new();
        if let Some((x, y)) = seen.pointer {
            let left: u8 = if seen.left {
                1
            } else {
                0
            };
            let right: u8 = if seen.right {
                2
            } else {
                0
            };
            let middle: u8 = if seen.middle {
                4
            } else {
                0
            };
            let buttons: u8 = left + right + middle;
            let changed = match self.last_pointer {
                Some((last_x, last_y, last_buttons)) => last_x != x || last_y != y || last_buttons
                    != buttons,
                None => true,
            };
            if changed {
                events.push(InputEvent::Pointer { x, y, buttons });
                self.last_pointer = Some((x, y, buttons));
            }
        }
        if seen.delta_x != 0 || seen.delta_y != 0 {
            events.push(InputEvent::Wheel { delta_x: seen.delta_x, delta_y: seen.delta_y });
        }
        push_keys(&mut events, &seen.pressed, true);
        push_keys(&mut events, &seen.released, false);
        assert(events@ =~= seen.events(old(self)@.pointer));
        events
    }
}

impl FrameSink for PreviewWindowSink {
    open spec fn presents(
        &self,
        after: &Self,
        frame: VideoFrame,
        result: Result<(), DcError>,
    ) -> bool {
        &&& result is Ok
        &&& after@ == self@.presenting(frame@)
    }

    fn present(&mut self, frame: VideoFrame) -> Result<(), DcError> {
        let size = frame.layout().size();
        let width: usize = size.width() as usize;
        let height: usize = size.height() as usize;
        let taken = self.take();
        let mut desktop_pixels = taken.desktop_pixels;
        let _ = convert_to_minifb(&frame, &mut desktop_pixels);
        assert(desktop_pixels@.len() == width * height) by {
            assert(width * height >= 0) by (nonlinear_arith)
                requires
                    width >= 0,
                    height >= 0,
            ;
        }
        let presented = PreviewWindowSink {
            base_title: taken.base_title,
            desktop_pixels,
            pixels: taken.pixels,
            frame_size: Some((width, height)),
            last_pointer: taken.last_pointer,
            remote_cursor: taken.remote_cursor,
            outlines: taken.outlines,
            updated_regions: Vec::new(),
        };
        *self = presented.render_composited();
        Ok(())
    }
}

/// A picture cut or filled up with black to a number of pixels.
pub open spec fn resized(pixels: Seq<u32>, count: nat) -> Seq<u32> {
    Seq::new(
        count,
        |p: int|
            if p < pixels.len() {
                pixels[p]
            } else {
                0
            },
    )
}

fn resize(pixels: &mut Vec<u32>, count: usize)
    ensures
        final(pixels)@ == resized(old(pixels)@, count as nat),
{
    let ghost before = pixels@;
    pixels.resize(count, 0);
    proof {
        if count > before.len() {
            assert forall|p: int| 0 <= p < before.len() implies pixels@[p] == before[p] by {
                assert(pixels@.subrange(0, before.len() as int)[p] == pixels@[p]);
            }
        }
    }
    assert(pixels@ =~= resized(before, count as nat));
}

/// Neither the cursor nor the outlines ever change the desktop: what a cursor update leaves of it
/// is what there was.
pub proof fn law_cursor_leaves_the_desktop(
    state: PreviewState,
    visible: bool,
    x: i32,
    y: i32,
    shape: Option<CursorShapeView>,
)
    ensures
        state.pointing(visible, x, y, shape).0.desktop == state.desktop,
        state.composed().desktop == state.desktop,
{
}

/// Whether the outlines are shown has no influence on the desktop that an update leaves, nor on
/// what it returns.
pub proof fn law_outlines_leave_the_desktop(
    state: PreviewState,
    width: u32,
    height: u32,
    regions: Seq<DesktopRect>,
    data: Seq<u8>,
)
    ensures
        ({
            let plain = PreviewState { outlines: false, ..state };
            let outlined = PreviewState { outlines: true, ..state };
            &&& plain.updating(width, height, regions, data).0.desktop == outlined.updating(
                width,
                height,
                regions,
                data,
            ).0.desktop
            &&& plain.updating(width, height, regions, data).1 == outlined.updating(
                width,
                height,
                regions,
                data,
            ).1
        }),
{
}

/// A presented frame is what the window's desktop shows, and behind it nothing counts as updated.
/// Without outlines and without a cursor the window shows the desktop as it is.
pub proof fn law_presented_frame_is_shown(state: PreviewState, frame: FrameView)
    ensures
        ({
            let after = state.presenting(frame);
            &&& after.desktop == frame_pixels(frame)
            &&& after.size == Some(
                (frame.layout.width() as usize, frame.layout.height() as usize),
            )
            &&& after.regions.len() == 0
            &&& after.title == state.title
            &&& after.pointer == state.pointer
            &&& after.cursor == state.cursor
            &&& after.outlines == state.outlines
            &&& !state.cursor.visible && !state.outlines ==> after.shown == after.desktop
            &&& !state.outlines ==> after.shown == with_cursor(
                after.desktop,
                frame.layout.width() as int,
                state.cursor,
            )
            &&& after.shown.len() == after.desktop.len()
        }),
{
    let after = state.presenting(frame);
    if !state.cursor.visible && !state.outlines {
        assert(after.shown =~= after.desktop);
    }
}

/// An update is refused, and changes nothing, where it is not of the size that is shown. Where it is
/// taken its regions are those that count as updated, and the window shows the desktop with their
/// outlines, where these are wanted, and the cursor on top.
pub proof fn law_update_is_shown(
    state: PreviewState,
    width: u32,
    height: u32,
    regions: Seq<DesktopRect>,
    data: Seq<u8>,
)
    ensures
        ({
            let (after, outcome) = state.updating(width, height, regions, data);
            let (desktop, painted) = updated(state.desktop, width, height, regions, data);
            let fits = state.size == Some((width as usize, height as usize));
            &&& !fits ==> after == state && outcome is Err
            &&& fits ==> after.desktop == desktop && outcome == painted
            &&& fits && outcome is Ok ==> {
                &&& after.regions == regions
                &&& after.shown == with_cursor(
                    if state.outlines {
                        with_outlines(desktop, width as int, regions)
                    } else {
                        desktop
                    },
                    width as int,
                    state.cursor,
                )
            }
            &&& fits && outcome is Err ==> after.shown == state.shown && after.regions
                == state.regions
            &&& after.size == state.size
            &&& after.cursor == state.cursor
            &&& after.pointer == state.pointer
            &&& after.title == state.title
            &&& after.outlines == state.outlines
        }),
{
}

/// The cursor goes where it was told to and looks as before where it was told no shape.
pub proof fn law_cursor_goes_where_it_was_told(
    state: PreviewState,
    visible: bool,
    x: i32,
    y: i32,
    shape: Option<CursorShapeView>,
)
    ensures
        ({
            let (after, outcome) = state.pointing(visible, x, y, shape);
            &&& after.cursor.visible == visible
            &&& after.cursor.x == x
            &&& after.cursor.y == y
            &&& shape is None ==> outcome is Ok && after.cursor.shape == state.cursor.shape
            &&& shape is Some && shape_failure(shape->Some_0) is None ==> outcome is Ok
                && after.cursor.shape == shape
            &&& shape is Some && shape_failure(shape->Some_0) is Some ==> outcome is Err
                && after.cursor.shape == state.cursor.shape && after.shown == state.shown
            &&& outcome is Ok && state.size is Some && !state.outlines ==> after.shown
                == with_cursor(state.desktop, state.size->Some_0.0 as int, after.cursor)
            &&& after.regions == state.regions
            &&& after.size == state.size
        }),
{
}

/// The events of keys follow the keys, one for each that the host's keyboard has.
pub proof fn law_key_events_follow_the_keys(keys: Seq<WindowKey>, key: WindowKey, pressed: bool)
    ensures
        key_events(Seq::empty(), pressed) == Seq::<InputEvent>::empty(),
        physical(key) is None ==> key_events(keys.push(key), pressed) == key_events(keys, pressed),
        physical(key) is Some ==> key_events(keys.push(key), pressed) == key_events(
            keys,
            pressed,
        ).push(InputEvent::Key { key: physical(key)->Some_0, pressed }),
{
    assert(keys.push(key).drop_last() =~= keys);
}

/// A window reports its pointer where it moved or a button changed, then its wheel where it turned,
/// then the keys that went down, then those that went up. The left button counts one, the right one
/// two and the middle one four.
pub proof fn law_window_reports_in_order(seen: WindowInput, last: Option<(i32, i32, u8)>)
    ensures
        ({
            let buttons = (if seen.left {
                1int
            } else {
                0
            }) + (if seen.right {
                2int
            } else {
                0
            }) + (if seen.middle {
                4int
            } else {
                0
            });
            let moved = seen.pointer is Some && last != Some(
                (seen.pointer->Some_0.0, seen.pointer->Some_0.1, buttons as u8),
            );
            let turned = seen.delta_x != 0 || seen.delta_y != 0;
            let events = seen.events(last);
            let pointer = if moved {
                seq![
                    InputEvent::Pointer {
                        x: seen.pointer->Some_0.0,
                        y: seen.pointer->Some_0.1,
                        buttons: buttons as u8,
                    },
                ]
            } else {
                Seq::empty()
            };
            let wheel = if turned {
                seq![InputEvent::Wheel { delta_x: seen.delta_x, delta_y: seen.delta_y }]
            } else {
                Seq::empty()
            };
            &&& events == pointer + wheel + key_events(seen.pressed@, true) + key_events(
                seen.released@,
                false,
            )
            &&& seen.pointer is Some ==> seen.place() == Some(
                (seen.pointer->Some_0.0, seen.pointer->Some_0.1, buttons as u8),
            )
            &&& seen.pointer is None ==> seen.place() is None
        }),
{
}


/// A window tells the same place of the pointer once: after it was told, only a move or another button
/// tells it again, and a pointer outside tells nothing and is not forgotten.
pub proof fn law_pointer_is_told_once(state: PreviewState, seen: WindowInput)
    requires
        seen.delta_x == 0,
        seen.delta_y == 0,
        seen.pressed@.len() == 0,
        seen.released@.len() == 0,
    ensures
        seen.events(state.drained(seen).pointer).len() == 0,
        seen.pointer is None ==> state.drained(seen) == state,
        seen.pointer is Some ==> state.drained(seen).pointer == seen.place(),
        seen.pointer is Some && state.pointer != seen.place() ==> seen.events(state.pointer).len()
            == 1,
        state.drained(seen).desktop == state.desktop,
        state.drained(seen).shown == state.shown,
        state.drained(seen).size == state.size,
        state.drained(seen).cursor == state.cursor,
{
}

/// The pointer is told in pixels of the picture, and of the window while there is no picture; an empty
/// window counts as one pixel. A picture of another size takes the place of the empty one of 640 by
/// 360.
pub proof fn law_pointer_is_told_in_pixels(
    state: PreviewState,
    title: Seq<char>,
    width: usize,
    height: usize,
)
    ensures
        state.size matches Some(size) ==> state.area(width, height) == size,
        state.size is None && width > 0 && height > 0 ==> state.area(width, height) == (
            width,
            height,
        ),
        state.size is None && width == 0 ==> state.area(width, height).0 == 1,
        state.size is None && height == 0 ==> state.area(width, height).1 == 1,
        state.replacing(width, height) <==> state.size == Some((640usize, 360usize)) && !(width
            == 640 && height == 360),
        PreviewState::empty(title).size is None,
        PreviewState::empty(title).pointer is None,
        PreviewState::empty(title).title == title,
        !PreviewState::empty(title).outlines,
        !PreviewState::empty(title).cursor.visible,
        PreviewState::empty(title).cursor.shape is None,
        PreviewState::empty(title).facts(),
{
}

/// A placeholder keeps what was shown as far as it reaches, and is black beyond.
pub proof fn law_placeholder_keeps_what_was_shown(pixels: Seq<u32>, count: nat, p: int)
    requires
        0 <= p < count,
    ensures
        resized(pixels, count).len() == count,
        p < pixels.len() ==> resized(pixels, count)[p] == pixels[p],
        p >= pixels.len() ==> resized(pixels, count)[p] == 0,
{
}

/// A status stands behind the window's own title, with a bar between them.
pub proof fn law_status_stands_behind_the_title(
    state: PreviewState,
    status: Seq<char>,
    place: int,
)
    ensures
        state.status_title(status).len() == state.title.len() + 3 + status.len(),
        0 <= place < state.title.len() ==> state.status_title(status)[place] == state.title[place],
        state.status_title(status)[state.title.len() as int] == ' ',
        state.status_title(status)[state.title.len() as int + 1] == '|',
        state.status_title(status)[state.title.len() as int + 2] == ' ',
        0 <= place < status.len() ==> state.status_title(status)[state.title.len() + 3 + place]
            == status[place],
{
    reveal_strlit(" | ");
}

} // verus!
