use direct_computing::desktop::{
    decode_region_payload, encode_region_update, DirtyRegionDetector,
};
use direct_computing::error::DcError;
use direct_computing::media::{FrameLayout, FrameSink, FrameSize, PixelFormat, VideoFrame};
use direct_computing::protocol::{CursorShape, DesktopRect, InputEvent, KeyboardKey, WireMessage};
use direct_computing::time::Duration;
use direct_computing::ui::cursor::validate_cursor_shape;
use direct_computing::ui::{
    convert_to_minifb, initial_window_size, map_key, ApplicationRole, PreviewWindowSink,
    PreviewPace, WindowInput, WindowKey,
};

fn bgra_frame(width: u32, height: u32, data: Vec<u8>) -> VideoFrame {
    let size = FrameSize::new(width, height).unwrap();
    let layout = FrameLayout::packed(size, PixelFormat::Bgra32).unwrap();
    VideoFrame::new(0, Duration::zero(), layout, data).unwrap()
}

#[test]
fn preview_size_preserves_aspect_ratio() {
    assert_eq!(initial_window_size(640, 480, None), (640, 480));
    let (width, height) = initial_window_size(3_840, 2_160, None);
    assert!(width <= 1_280);
    assert!(height <= 720);
    assert_eq!(width * 2_160, height * 3_840);
}

#[test]
fn converts_bgra_to_rgb_pixels() {
    let frame = bgra_frame(
        2,
        1,
        vec![0x33, 0x22, 0x11, 0xff, 0xcc, 0xbb, 0xaa, 0xff],
    );
    let mut output = Vec::new();
    convert_to_minifb(&frame, &mut output).unwrap();
    assert_eq!(output, vec![0x00112233, 0x00aabbcc]);
}

#[test]
fn applies_regions_without_changing_other_pixels() {
    let mut sink = PreviewWindowSink::new("test");
    sink.present(bgra_frame(
        2,
        1,
        vec![0x33, 0x22, 0x11, 0xff, 0x66, 0x55, 0x44, 0xff],
    ))
    .unwrap();
    assert_eq!(sink.desktop_pixels(), [0x00112233, 0x00445566]);
    sink.apply_bgra_regions(
        2,
        1,
        &[DesktopRect {
            x: 1,
            y: 0,
            width: 1,
            height: 1,
        }],
        &[0xcc, 0xbb, 0xaa, 0xff],
    )
    .unwrap();
    assert_eq!(sink.desktop_pixels(), vec![0x00112233, 0x00aabbcc]);
}

#[test]
fn cursor_is_composited_without_polluting_the_desktop() {
    let mut sink = PreviewWindowSink::new("test");
    sink.present(bgra_frame(2, 1, vec![0; 8])).unwrap();
    sink.update_remote_cursor(
        true,
        0,
        0,
        Some(CursorShape {
            kind: 2,
            width: 1,
            height: 1,
            hotspot_x: 0,
            hotspot_y: 0,
            pitch: 4,
            data: vec![0, 0, 255, 255],
        }),
    )
    .unwrap();
    assert_eq!(sink.pixels(), vec![0x00ff0000, 0]);
    assert_eq!(sink.desktop_pixels(), vec![0, 0]);

    sink.update_remote_cursor(true, 1, 0, None).unwrap();
    assert_eq!(sink.pixels(), vec![0, 0x00ff0000]);
}

#[test]
fn maps_navigation_modifiers_and_numpad_keys() {
    assert_eq!(map_key(WindowKey::A), Some(KeyboardKey::A));
    assert_eq!(map_key(WindowKey::RightCtrl), Some(KeyboardKey::RightControl));
    assert_eq!(map_key(WindowKey::LeftAlt), Some(KeyboardKey::LeftAlt));
    assert_eq!(map_key(WindowKey::Delete), Some(KeyboardKey::Delete));
    assert_eq!(map_key(WindowKey::NumPadEnter), Some(KeyboardKey::NumpadEnter));
    assert_eq!(map_key(WindowKey::Unknown), None);
}

fn rect(x: u32, y: u32, width: u32, height: u32) -> DesktopRect {
    DesktopRect {
        x,
        y,
        width,
        height,
    }
}

fn codec_error(result: Result<(), DcError>) -> String {
    match result {
        Err(DcError::Codec(message)) => message,
        other => panic!("expected a codec error, got {other:?}"),
    }
}

fn shape(kind: u8, width: u32, height: u32, pitch: u32, data: Vec<u8>) -> CursorShape {
    CursorShape {
        kind,
        width,
        height,
        hotspot_x: 0,
        hotspot_y: 0,
        pitch,
        data,
    }
}

#[test]
fn rgb_frames_with_padding_are_converted() {
    let size = FrameSize::new(1, 2).unwrap();
    let layout = FrameLayout::with_stride(size, PixelFormat::Rgb24, 5).unwrap();
    let frame = VideoFrame::new(
        0,
        Duration::zero(),
        layout,
        vec![1, 2, 3, 0xee, 0xee, 4, 5, 6, 0xee, 0xee],
    )
    .unwrap();
    let mut output = vec![7; 9];
    convert_to_minifb(&frame, &mut output).unwrap();
    assert_eq!(output, vec![0x0001_0203, 0x0004_0506]);
}

#[test]
fn updates_are_refused_before_a_matching_frame() {
    let mut sink = PreviewWindowSink::new("test");
    assert_eq!(
        codec_error(sink.apply_bgra_regions(2, 1, &[], &[])),
        "desktop update arrived before a matching full frame"
    );
    sink.present(bgra_frame(2, 1, vec![0; 8])).unwrap();
    assert_eq!(
        codec_error(sink.apply_bgra_regions(1, 2, &[], &[])),
        "desktop update arrived before a matching full frame"
    );
    assert!(sink.apply_bgra_regions(2, 1, &[], &[]).is_ok());
}

#[test]
fn faulty_updates_are_refused() {
    let mut sink = PreviewWindowSink::new("test");
    sink.present(bgra_frame(2, 2, vec![0; 16])).unwrap();
    for outside in [rect(0, 0, 0, 1), rect(1, 0, 2, 1), rect(0, 2, 1, 1), rect(u32::MAX, 0, 2, 1)] {
        assert_eq!(
            codec_error(sink.apply_bgra_regions(2, 2, &[outside], &[0; 64])),
            "desktop update region is outside the frame"
        );
    }
    assert_eq!(
        codec_error(sink.apply_bgra_regions(2, 2, &[rect(0, 0, 1, 2)], &[1, 2, 3, 4, 5])),
        "desktop update payload is truncated"
    );
    // The rows before the missing one are painted, but not shown yet.
    assert_eq!(sink.desktop_pixels(), [0x0003_0201, 0, 0, 0]);
    assert_eq!(sink.pixels(), [0, 0, 0, 0]);
    assert_eq!(
        codec_error(sink.apply_bgra_regions(2, 2, &[rect(1, 1, 1, 1)], &[9, 8, 7, 6, 5])),
        "desktop update payload has trailing bytes"
    );
}

#[test]
fn cursor_shapes_are_checked() {
    let message = |shape: CursorShape| codec_error(validate_cursor_shape(&shape));
    assert_eq!(
        message(shape(2, 0, 1, 4, vec![0; 4])),
        "invalid cursor shape dimensions"
    );
    let mut far = shape(2, 1, 1, 4, vec![0; 4]);
    far.hotspot_x = 1;
    assert_eq!(message(far), "invalid cursor shape dimensions");
    assert_eq!(
        message(shape(3, 1, 1, 4, vec![0; 4])),
        "unknown cursor shape kind"
    );
    assert_eq!(
        message(shape(2, 0x4000_0000, 1, u32::MAX, vec![])),
        "cursor pitch overflowed"
    );
    assert_eq!(
        message(shape(4, 2, 1, 7, vec![0; 7])),
        "cursor shape pitch is too small"
    );
    assert_eq!(
        message(shape(1, 8, 0x8000_0000, 1, vec![])),
        "cursor shape payload has the wrong size"
    );
    assert_eq!(
        message(shape(1, 9, 0x8000_0000, 2, vec![])),
        "cursor shape size overflowed"
    );
    assert_eq!(
        message(shape(1, 9, 1, 2, vec![0; 2])),
        "cursor shape payload has the wrong size"
    );
    assert!(validate_cursor_shape(&shape(1, 9, 1, 2, vec![0; 4])).is_ok());
}

#[test]
fn monochrome_cursors_keep_replace_and_invert() {
    let mut sink = PreviewWindowSink::new("test");
    sink.present(bgra_frame(4, 1, [0x30, 0x20, 0x10, 0xff].repeat(4)))
        .unwrap();
    // Kept, black, white, inverted.
    sink.update_remote_cursor(
        true,
        0,
        0,
        Some(shape(1, 4, 1, 1, vec![0b1001_0000, 0b0011_0000])),
    )
    .unwrap();
    assert_eq!(
        sink.pixels(),
        [0x0010_2030, 0, 0x00ff_ffff, 0x00ef_dfcf]
    );
}

#[test]
fn colored_cursors_blend_by_their_opacity() {
    let mut sink = PreviewWindowSink::new("test");
    sink.present(bgra_frame(3, 1, [0, 0, 0xff, 0xff].repeat(3)))
        .unwrap();
    let pixels = vec![0xff, 0, 0, 0, 0xff, 0, 0, 0x80, 0xff, 0, 0, 0xff];
    sink.update_remote_cursor(true, 0, 0, Some(shape(2, 3, 1, 12, pixels)))
        .unwrap();
    assert_eq!(sink.pixels(), [0x00ff_0000, 0x007f_0080, 0x0000_00ff]);
}

#[test]
fn masked_cursors_replace_or_invert() {
    let mut sink = PreviewWindowSink::new("test");
    sink.present(bgra_frame(2, 1, [0, 0, 0xff, 0xff].repeat(2)))
        .unwrap();
    let pixels = vec![0x0f, 0, 0xff, 0, 0x0f, 0, 0, 1];
    sink.update_remote_cursor(true, 0, 0, Some(shape(4, 2, 1, 8, pixels)))
        .unwrap();
    assert_eq!(sink.pixels(), [0x0000_000f, 0x0000_000f]);
}

#[test]
fn cursors_are_cut_off_at_the_edges() {
    let mut sink = PreviewWindowSink::new("test");
    sink.present(bgra_frame(2, 2, vec![0; 16])).unwrap();
    let mut cursor = shape(2, 2, 2, 8, [0xff; 16].to_vec());
    cursor.hotspot_x = 1;
    cursor.hotspot_y = 1;
    sink.update_remote_cursor(true, 0, 0, Some(cursor)).unwrap();
    assert_eq!(sink.pixels(), [0x00ff_ffff, 0, 0, 0]);
    sink.update_remote_cursor(true, 2, 2, None).unwrap();
    assert_eq!(sink.pixels(), [0, 0, 0, 0x00ff_ffff]);
    sink.update_remote_cursor(true, i32::MIN, i32::MAX, None).unwrap();
    assert_eq!(sink.pixels(), [0; 4]);
    sink.update_remote_cursor(false, 1, 1, None).unwrap();
    assert_eq!(sink.pixels(), [0; 4]);
}

#[test]
fn a_refused_shape_still_moves_the_cursor() {
    let mut sink = PreviewWindowSink::new("test");
    sink.present(bgra_frame(2, 1, vec![0; 8])).unwrap();
    sink.update_remote_cursor(true, 0, 0, Some(shape(2, 1, 1, 4, vec![0xff; 4])))
        .unwrap();
    let refused = sink.update_remote_cursor(true, 1, 0, Some(shape(9, 1, 1, 4, vec![])));
    assert_eq!(codec_error(refused), "unknown cursor shape kind");
    assert_eq!(sink.pixels(), [0x00ff_ffff, 0]);
    sink.update_remote_cursor(true, 1, 0, None).unwrap();
    assert_eq!(sink.pixels(), [0, 0x00ff_ffff]);
}

#[test]
fn outlines_show_updates_without_changing_the_desktop() {
    let mut sink = PreviewWindowSink::new("test");
    sink.set_dirty_region_debug(true);
    sink.present(bgra_frame(4, 4, vec![0; 64])).unwrap();
    assert_eq!(sink.pixels(), [0; 16]);
    sink.apply_bgra_regions(4, 4, &[rect(1, 1, 3, 3)], &[7; 36])
        .unwrap();
    let green = 0x0000_ff00;
    let gray = 0x0007_0707;
    assert_eq!(
        sink.pixels(),
        [
            0, 0, 0, 0, //
            0, green, green, green, //
            0, green, gray, green, //
            0, green, green, green,
        ]
    );
    assert_eq!(
        sink.desktop_pixels(),
        [0, 0, 0, 0, 0, gray, gray, gray, 0, gray, gray, gray, 0, gray, gray, gray]
    );
    sink.present(bgra_frame(4, 4, vec![0; 64])).unwrap();
    assert_eq!(sink.pixels(), [0; 16]);
}

#[test]
fn a_window_follows_the_host_through_an_update() {
    let mut before = vec![0u8; 70 * 2 * 4];
    before[0] = 1;
    let mut after = before.clone();
    after[69 * 4 + 2] = 0x55;
    let first = bgra_frame(70, 2, before);
    let next = bgra_frame(70, 2, after);
    let mut expected = Vec::new();
    convert_to_minifb(&next, &mut expected).unwrap();

    let mut detector = DirtyRegionDetector::default();
    let mut sink = PreviewWindowSink::new("test");
    detector.detect(&first).unwrap();
    sink.present(first).unwrap();
    let regions = detector.detect(&next).unwrap();
    let update = encode_region_update(&next, &regions, 1).unwrap();
    let payload = decode_region_payload(&update).unwrap();
    let WireMessage::DesktopUpdate { regions, .. } = update else {
        panic!("an update is expected");
    };
    sink.apply_bgra_regions(70, 2, &regions, &payload).unwrap();
    assert_eq!(sink.desktop_pixels(), expected);
    assert_eq!(sink.pixels(), expected);
}

#[test]
fn the_placeholder_is_replaced_by_another_size() {
    let mut sink = PreviewWindowSink::new("viewer");
    assert!(!sink.replaces_placeholder(2, 1));
    sink.show_placeholder(640, 360);
    assert_eq!(sink.frame_size(), Some((640, 360)));
    assert_eq!(sink.pixels().len(), 640 * 360);
    assert!(sink.replaces_placeholder(2, 1));
    assert!(!sink.replaces_placeholder(640, 360));
    sink.present(bgra_frame(2, 1, vec![0; 8])).unwrap();
    assert_eq!(sink.frame_size(), Some((2, 1)));
    assert_eq!(sink.set_status("12 fps"), "viewer | 12 fps");
    assert_eq!(sink.title(), "viewer");
}

#[test]
fn the_pointer_area_is_that_of_the_frame() {
    let mut sink = PreviewWindowSink::new("test");
    assert_eq!(sink.pointer_area(0, 7), (1, 7));
    sink.present(bgra_frame(2, 1, vec![0; 8])).unwrap();
    assert_eq!(sink.pointer_area(800, 600), (2, 1));
}

fn nothing_seen() -> WindowInput {
    WindowInput {
        pointer: None,
        left: false,
        right: false,
        middle: false,
        delta_x: 0,
        delta_y: 0,
        pressed: vec![],
        released: vec![],
    }
}

#[test]
fn input_is_reported_in_order_and_once() {
    let mut sink = PreviewWindowSink::new("test");
    assert_eq!(sink.drain_input_events(&nothing_seen()), vec![]);
    let seen = WindowInput {
        pointer: Some((3, 4)),
        left: true,
        right: false,
        middle: true,
        delta_x: 0,
        delta_y: -120,
        pressed: vec![WindowKey::A, WindowKey::Unknown],
        released: vec![WindowKey::Escape],
    };
    assert_eq!(
        sink.drain_input_events(&seen),
        vec![
            InputEvent::Pointer {
                x: 3,
                y: 4,
                buttons: 5
            },
            InputEvent::Wheel {
                delta_x: 0,
                delta_y: -120
            },
            InputEvent::Key {
                key: KeyboardKey::A,
                pressed: true
            },
            InputEvent::Key {
                key: KeyboardKey::Escape,
                pressed: false
            },
        ]
    );
    let mut still = nothing_seen();
    still.pointer = Some((3, 4));
    still.left = true;
    still.middle = true;
    assert_eq!(sink.drain_input_events(&still), vec![]);
    still.middle = false;
    still.right = true;
    assert_eq!(
        sink.drain_input_events(&still),
        vec![InputEvent::Pointer {
            x: 3,
            y: 4,
            buttons: 3
        }]
    );
}

#[test]
fn windows_fit_their_screen() {
    assert_eq!(initial_window_size(1_280, 721, None), (1_278, 720));
    assert_eq!(initial_window_size(100, 10_000, None), (7, 720));
    assert_eq!(initial_window_size(10_000, 1, None), (1_280, 1));
    assert_eq!(
        initial_window_size(1_920, 1_080, Some((1_920, 1_080))),
        (1_778, 1_000)
    );
    assert_eq!(initial_window_size(0, 2_000, None), (1, 720));
    assert_eq!(initial_window_size(5, 5, Some((0, 79))), (1, 1));
}

#[test]
fn roles_are_distinct() {
    assert_ne!(ApplicationRole::Host, ApplicationRole::Viewer);
}

#[test]
fn previews_keep_their_pace() {
    let millis = Duration::from_millis;
    let mut pace = PreviewPace::new(2);
    assert!(pace.goes_on(millis(0), true));
    assert!(!pace.goes_on(millis(0), false));
    assert!(pace.goes_on(millis(1_999), true));
    assert!(!pace.goes_on(millis(2_000), true));
    assert!(PreviewPace::new(0).goes_on(Duration::from_secs(1 << 40), true));
    assert_eq!(pace.pace(millis(10)).nanos, 23_333_333);
    assert_eq!(pace.pace(millis(40)).nanos, 26_666_666);
    assert_eq!(pace.pace(millis(500)).nanos, 0);
    assert_eq!(pace.pace(millis(510)).nanos, 23_333_333);
    assert_eq!(pace.report_due(millis(999)), None);
    assert_eq!(pace.report_due(millis(1_250)), Some(millis(1_250)));
    assert_eq!(pace.report_due(millis(2_249)), None);
    assert_eq!(pace.report_due(millis(2_250)), Some(millis(1_000)));
}
