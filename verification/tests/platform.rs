use direct_computing::desktop::validate_input;
use direct_computing::error::DcError;
use direct_computing::media::{
    CursorShapeKind, DamageRect, EncodeOutcome, EncodedVideoPacket, FrameLayout, FrameMetadata,
    FrameSize, PixelFormat, VideoCodec, VideoFrame,
};
use direct_computing::platform::capture::{
    capture_cursor, capture_cursor_shape, capture_metadata, copy_mapped_bgra, damage_rect,
    mapped_length, utf16_name, OutputDescription, PointerShape, ScreenMove, ScreenRect,
};
use direct_computing::platform::fallback::{
    fallback_minimum_qp, FallbackStep, HostBackend, HostFallback, ViewerDecoder,
};
use direct_computing::platform::injector::{
    MouseInput, WindowsInput, MOUSEEVENTF_ABSOLUTE, MOUSEEVENTF_HWHEEL, MOUSEEVENTF_LEFTDOWN,
    MOUSEEVENTF_LEFTUP, MOUSEEVENTF_MIDDLEDOWN, MOUSEEVENTF_MIDDLEUP, MOUSEEVENTF_MOVE,
    MOUSEEVENTF_WHEEL,
};
use direct_computing::platform::media_foundation::{
    annex_b_sample, codec_controls, input_sample_size, wait_step, waited_too_long, CodecSetting,
    TransformEvent, TransformFeatures, WaitStep,
};
use direct_computing::platform::nv12::{bgra_to_nv12, nv12_to_frame, rgb_to_u, rgb_to_v, rgb_to_y};
use direct_computing::platform::video_toolbox::{
    annex_b_to_avcc, duration_to_timescale, picture_format, FormatAction,
};
use direct_computing::platform::windows_keys::{
    KEYEVENTF_EXTENDEDKEY, KEYEVENTF_KEYUP, KEYEVENTF_SCANCODE,
};
use direct_computing::platform::x264::rate_limits;
use direct_computing::platform::{
    windows_key_input, VideoToolboxH264Decoder, WindowsDesktopCapturer, WindowsInputInjector,
    WindowsMediaFoundationH264Decoder, WindowsMediaFoundationH264Encoder, X264Encoder,
};
use direct_computing::protocol::{InputEvent, KeyboardKey};
use direct_computing::time::Duration;

#[test]
fn maps_physical_keys_to_windows_scan_codes() {
    let letter = windows_key_input(KeyboardKey::A, true);
    assert_eq!(letter.virtual_key, 0);
    assert_eq!(letter.scan_code, 0x1e);
    assert_eq!(letter.flags, KEYEVENTF_SCANCODE);

    let right_control = windows_key_input(KeyboardKey::RightControl, true);
    assert_eq!(right_control.scan_code, 0x1d);
    assert_eq!(
        right_control.flags,
        KEYEVENTF_SCANCODE | KEYEVENTF_EXTENDEDKEY
    );

    let numpad_enter = windows_key_input(KeyboardKey::NumpadEnter, false);
    assert_eq!(numpad_enter.scan_code, 0x1c);
    assert_eq!(
        numpad_enter.flags,
        KEYEVENTF_SCANCODE | KEYEVENTF_EXTENDEDKEY | KEYEVENTF_KEYUP
    );

    let main_enter = windows_key_input(KeyboardKey::Enter, true);
    assert_eq!(main_enter.scan_code, 0x1c);
    assert_eq!(main_enter.flags, KEYEVENTF_SCANCODE);
}

#[test]
fn maps_keys_without_set_one_codes_to_virtual_keys() {
    let f13 = windows_key_input(KeyboardKey::F13, true);
    assert_eq!(f13.virtual_key, 0x7c);
    assert_eq!(f13.scan_code, 0);
    assert_eq!(f13.flags, 0);
}

fn layout(width: u32, height: u32, format: PixelFormat) -> FrameLayout {
    FrameLayout::packed(FrameSize::new(width, height).unwrap(), format).unwrap()
}

fn frame(width: u32, height: u32, data: Vec<u8>) -> VideoFrame {
    VideoFrame::new(
        3,
        Duration::from_millis(40),
        layout(width, height, PixelFormat::Bgra32),
        data,
    )
    .unwrap()
}

fn packet(data: Vec<u8>) -> EncodedVideoPacket {
    EncodedVideoPacket::new(
        VideoCodec::H264,
        3,
        Duration::from_millis(40),
        true,
        layout(2, 2, PixelFormat::Bgra32),
        data,
    )
    .unwrap()
}

fn description<T: std::fmt::Debug>(result: Result<T, DcError>) -> String {
    result.unwrap_err().description()
}

fn mouse(flags: u32) -> WindowsInput {
    WindowsInput::Mouse(MouseInput {
        dx: 0,
        dy: 0,
        data: 0,
        flags,
    })
}

#[test]
fn key_events_name_the_key_and_the_direction() {
    let down = windows_key_input(KeyboardKey::Numpad7, true);
    assert_ne!(down, windows_key_input(KeyboardKey::Home, true));
    assert_ne!(down, windows_key_input(KeyboardKey::Numpad7, false));
    assert_eq!(
        windows_key_input(KeyboardKey::Pause, false).flags,
        KEYEVENTF_KEYUP
    );
}

#[test]
fn the_pointer_spans_the_screen() {
    let injector = WindowsInputInjector::new();
    let place = |x: i32, y: i32, width: i32, height: i32| {
        let event = InputEvent::Pointer { x, y, buttons: 0 };
        match injector.plan(&event, width, height).unwrap()[..] {
            [WindowsInput::Mouse(input)] => {
                assert_eq!(input.flags, MOUSEEVENTF_MOVE | MOUSEEVENTF_ABSOLUTE);
                (input.dx, input.dy)
            }
            _ => panic!("one move is expected"),
        }
    };
    assert_eq!(place(0, 0, 1_920, 1_080), (0, 0));
    assert_eq!(place(1_919, 1_079, 1_920, 1_080), (65_535, 65_535));
    assert_eq!(place(960, 540, 1_920, 1_080), (32_784, 32_797));
    assert_eq!(place(0, 1, 1, 2), (0, 65_535));
}

#[test]
fn buttons_go_down_and_up_once() {
    let mut injector = WindowsInputInjector::default();
    let hold = InputEvent::Pointer {
        x: 1,
        y: 1,
        buttons: 5,
    };
    let inputs = injector.plan(&hold, 10, 10).unwrap();
    assert_eq!(
        inputs[1..],
        [mouse(MOUSEEVENTF_LEFTDOWN), mouse(MOUSEEVENTF_MIDDLEDOWN)]
    );
    injector.injected(&hold);
    assert_eq!(injector.plan(&hold, 10, 10).unwrap().len(), 1);
    let let_go = InputEvent::Pointer {
        x: 1,
        y: 1,
        buttons: 4,
    };
    assert_eq!(
        injector.plan(&let_go, 10, 10).unwrap()[1..],
        [mouse(MOUSEEVENTF_LEFTUP)]
    );
    injector.injected(&let_go);
    assert_eq!(injector.release(), vec![mouse(MOUSEEVENTF_MIDDLEUP)]);
}

#[test]
fn held_keys_are_released_in_reverse_order() {
    let mut injector = WindowsInputInjector::new();
    for (key, pressed) in [
        (KeyboardKey::LeftControl, true),
        (KeyboardKey::A, true),
        (KeyboardKey::A, true),
        (KeyboardKey::B, true),
        (KeyboardKey::B, false),
    ] {
        let event = InputEvent::Key { key, pressed };
        assert_eq!(
            injector.plan(&event, 0, 0).unwrap(),
            vec![WindowsInput::Key(windows_key_input(key, pressed))]
        );
        injector.injected(&event);
    }
    assert_eq!(
        injector.release(),
        vec![
            WindowsInput::Key(windows_key_input(KeyboardKey::A, false)),
            WindowsInput::Key(windows_key_input(KeyboardKey::LeftControl, false)),
        ]
    );
    assert_eq!(WindowsInputInjector::new().release(), vec![]);
}

#[test]
fn wheels_turn_within_their_limit() {
    let injector = WindowsInputInjector::new();
    let wheel = |delta_x: i32, delta_y: i32| {
        injector.plan(&InputEvent::Wheel { delta_x, delta_y }, 0, 0)
    };
    let turn = |data: u32, flags: u32| {
        WindowsInput::Mouse(MouseInput {
            dx: 0,
            dy: 0,
            data,
            flags,
        })
    };
    assert_eq!(
        wheel(-120, 120).unwrap(),
        vec![
            turn(0xffff_ff88, MOUSEEVENTF_HWHEEL),
            turn(120, MOUSEEVENTF_WHEEL)
        ]
    );
    assert_eq!(wheel(0, 0).unwrap(), vec![]);
    assert!(wheel(12_000, -12_000).is_ok());
    assert_eq!(
        description(wheel(0, i32::MIN)),
        "invalid input: wheel delta exceeds the per-event limit"
    );
}

#[test]
fn pointers_outside_the_screen_are_refused() {
    let injector = WindowsInputInjector::new();
    let plan = |x: i32, y: i32, buttons: u8| {
        let event = InputEvent::Pointer { x, y, buttons };
        if validate_input(&event, 10, 10).is_ok() {
            assert!(injector.plan(&event, 10, 10).is_ok());
        }
        injector.plan(&event, 10, 10)
    };
    assert_eq!(
        description(plan(-1, 0, 8)),
        "invalid input: pointer contains unsupported button bits"
    );
    assert_eq!(
        description(plan(-1, 0, 0)),
        "invalid input: pointer coordinates must be non-negative"
    );
    assert_eq!(
        description(plan(0, 10, 0)),
        "invalid input: pointer coordinates are outside the primary desktop"
    );
    assert!(plan(9, 9, 7).is_ok());
}

#[test]
fn damage_is_cut_off_at_the_edges() {
    let edges = |left: i32, top: i32, right: i32, bottom: i32| {
        damage_rect(
            &ScreenRect {
                left,
                top,
                right,
                bottom,
            },
            100,
            50,
        )
    };
    assert_eq!(
        edges(-5, 10, 200, 20),
        Some(DamageRect {
            x: 0,
            y: 10,
            width: 100,
            height: 10
        })
    );
    assert_eq!(edges(100, 0, 200, 50), None);
    assert_eq!(edges(10, 10, 10, 20), None);
    assert_eq!(edges(20, 10, 10, 20), None);
}

#[test]
fn moves_damage_both_places() {
    let rect = |left: i32, top: i32, right: i32, bottom: i32| ScreenRect {
        left,
        top,
        right,
        bottom,
    };
    let moves = [
        ScreenMove {
            source_x: 90,
            source_y: -5,
            destination: rect(0, 0, 20, 10),
        },
        ScreenMove {
            source_x: 0,
            source_y: 0,
            destination: rect(200, 0, 220, 10),
        },
        ScreenMove {
            source_x: i32::MAX,
            source_y: 0,
            destination: rect(0, 40, 10, 60),
        },
    ];
    let metadata = capture_metadata(&[rect(1, 2, 3, 4), rect(5, 5, 5, 5)], &moves, None, 100, 50);
    let damage = |x: u32, y: u32, width: u32, height: u32| DamageRect {
        x,
        y,
        width,
        height,
    };
    assert_eq!(
        metadata.damage,
        Some(vec![
            damage(1, 2, 2, 2),
            damage(90, 0, 10, 5),
            damage(0, 0, 20, 10),
            damage(0, 40, 10, 10),
        ])
    );
    assert_eq!(metadata.cursor, None);
}

fn pointer_shape(shape_type: u32) -> PointerShape {
    PointerShape {
        shape_type,
        width: 8,
        height: 4,
        pitch: 1,
        hotspot_x: -3,
        hotspot_y: 1,
        required: 4,
        data: vec![1, 2, 3, 4, 5, 6],
    }
}

#[test]
fn captured_cursors_have_their_own_height_and_data() {
    let mask = capture_cursor_shape(pointer_shape(1)).unwrap();
    assert_eq!(mask.kind, CursorShapeKind::Monochrome);
    assert_eq!((mask.width, mask.height), (8, 2));
    assert_eq!((mask.hotspot_x, mask.hotspot_y), (0, 1));
    assert_eq!(mask.data, vec![1, 2, 3, 4]);
    let color = capture_cursor_shape(pointer_shape(2)).unwrap();
    assert_eq!((color.kind, color.height), (CursorShapeKind::Color, 4));
    let masked = capture_cursor_shape(pointer_shape(4)).unwrap();
    assert_eq!(masked.kind, CursorShapeKind::MaskedColor);
    assert_eq!(
        description(capture_cursor_shape(pointer_shape(3))),
        "unsupported: DXGI pointer shape type 3 is not supported"
    );
    assert!(capture_cursor(0, true, 1, 2, None).is_none());
    assert!(capture_cursor(0, true, 1, 2, Some(mask)).is_some());
    let moved = capture_cursor(9, false, 1, 2, None).unwrap();
    assert_eq!((moved.visible, moved.x, moved.y), (false, 1, 2));
}

#[test]
fn mapped_rows_are_copied_without_their_padding() {
    let size = FrameSize::new(1, 2).unwrap();
    assert_eq!(mapped_length(6, size).unwrap(), 12);
    assert_eq!(
        copy_mapped_bgra(&[1, 2, 3, 4, 9, 9, 5, 6, 7, 8, 9, 9], 6, size),
        vec![1, 2, 3, 4, 5, 6, 7, 8]
    );
    assert_eq!(
        description(mapped_length(3, size)),
        "platform error: D3D11 returned an invalid mapped desktop texture"
    );
    assert_eq!(
        description(mapped_length(usize::MAX, size)),
        "platform error: mapped desktop buffer size overflowed"
    );
}

fn display(attached: bool, rotated: bool, name: &str) -> OutputDescription {
    let mut units: Vec<u16> = name.encode_utf16().collect();
    units.extend([0, 0x41]);
    OutputDescription {
        attached,
        rotated,
        name: units,
    }
}

#[test]
fn displays_are_named_and_checked() {
    assert_eq!(utf16_name(&[0x44, 0xd83d, 0xde00, 0, 0x45]), "D\u{1f600}");
    assert_eq!(utf16_name(&[0xd800, 0x44]), "\u{fffd}D");
    let capturer = WindowsDesktopCapturer::new(2, 500, &display(true, false, "DISPLAY3")).unwrap();
    assert_eq!(capturer.output_index(), 2);
    assert_eq!(capturer.output_name(), "DISPLAY3");
    assert_eq!(
        capturer.timed_out().description(),
        "timeout: timed out after 500 ms waiting for desktop frame"
    );
    let refused = |attached: bool, rotated: bool| match WindowsDesktopCapturer::new(
        7,
        1,
        &display(attached, rotated, ""),
    ) {
        Ok(_) => panic!("the display has to be refused"),
        Err(error) => error.description(),
    };
    assert_eq!(
        refused(false, true),
        "platform error: DXGI output 7 is not attached to the desktop"
    );
    assert_eq!(
        refused(true, true),
        "unsupported: rotated DXGI output 7 is not supported yet"
    );
}

#[test]
fn captures_are_numbered() {
    let mut capturer = WindowsDesktopCapturer::new(0, 1, &display(true, false, "A")).unwrap();
    let shape = layout(1, 1, PixelFormat::Bgra32);
    let first = capturer
        .frame(Duration::zero(), shape, vec![0; 4], FrameMetadata::default())
        .unwrap();
    assert_eq!(first.sequence(), 0);
    assert!(capturer
        .frame(Duration::zero(), shape, vec![0; 3], FrameMetadata::default())
        .is_err());
    let third = capturer
        .frame(Duration::zero(), shape, vec![0; 4], FrameMetadata::default())
        .unwrap();
    assert_eq!(third.sequence(), 2);
}

#[test]
fn colors_become_brightness_and_differences() {
    assert_eq!(rgb_to_y(0, 0, 0), 16);
    assert_eq!(rgb_to_y(255, 255, 255), 235);
    assert_eq!(rgb_to_y(255, 0, 0), 82);
    assert_eq!((rgb_to_u(0, 0, 255), rgb_to_v(0, 0, 255)), (240, 111));
    assert_eq!((rgb_to_u(255, 0, 0), rgb_to_v(255, 0, 0)), (91, 240));
    assert_eq!((rgb_to_u(9, 9, 9), rgb_to_v(9, 9, 9)), (128, 128));
}

#[test]
fn planes_hold_every_second_color_difference() {
    let mut data = Vec::new();
    for blue in [0u8, 255, 255, 255] {
        data.extend([blue, 0, 0, 255]);
    }
    let planes = bgra_to_nv12(&frame(2, 2, data));
    assert_eq!(planes, vec![16, 41, 41, 41, 128, 128]);
    let shown = nv12_to_frame(3, Duration::zero(), 2, 2, &planes).unwrap();
    assert_eq!(shown.data()[..4], [0, 0, 0, 255]);
    assert_eq!(shown.data()[4..8], [29, 29, 29, 255]);
    assert_eq!(
        description(nv12_to_frame(3, Duration::zero(), 2, 2, &planes[..5])),
        "codec error: Media Foundation returned a truncated NV12 frame"
    );
    let bright = nv12_to_frame(3, Duration::zero(), 2, 2, &[255, 0, 16, 16, 255, 255]).unwrap();
    assert_eq!(bright.data()[..4], [255, 125, 255, 255]);
    assert_eq!(bright.data()[4..8], [237, 0, 184, 255]);
}

fn features() -> TransformFeatures {
    TransformFeatures {
        hardware_accelerated: true,
        asynchronous: false,
        supports_force_keyframe: false,
    }
}

#[test]
fn media_foundation_encoders_check_what_they_are_asked_for() {
    let open = |width: u32, height: u32, bitrate: u32, fps: u32| {
        WindowsMediaFoundationH264Encoder::new(width, height, bitrate, fps, features())
            .map(|encoder| encoder.backend_name())
    };
    assert_eq!(open(2, 2, 1, 1).unwrap(), "windows-media-foundation-h264");
    for (width, height) in [(0, 2), (2, 0), (3, 2), (2, 3)] {
        assert_eq!(
            description(open(width, height, 0, 0)),
            "invalid input: Media Foundation H.264 dimensions must be non-zero and even"
        );
    }
    for (bitrate, fps) in [(0, 1), (1, 0)] {
        assert_eq!(
            description(open(2, 2, bitrate, fps)),
            "invalid input: Media Foundation H.264 bitrate and frame rate must be non-zero"
        );
    }
}

#[test]
fn media_foundation_samples_are_prepared() {
    let encoder = WindowsMediaFoundationH264Encoder::new(2, 2, 8, 30, features()).unwrap();
    let sample = encoder.prepare(&frame(2, 2, vec![0; 16])).unwrap();
    assert_eq!(sample.planes, vec![16, 16, 16, 16, 128, 128]);
    assert_eq!(sample.planes.len() as u32, input_sample_size(2, 2).unwrap());
    assert_eq!(sample.time, 400_000);
    assert_eq!(sample.duration, 333_333);
    let prepared = |frame: &VideoFrame| encoder.prepare(frame).map(|sample| sample.time);
    assert_eq!(
        description(prepared(&frame(4, 2, vec![0; 32]))),
        "invalid input: Media Foundation encoder received a frame with changing dimensions"
    );
    let rgb = VideoFrame::new(
        0,
        Duration::zero(),
        layout(2, 2, PixelFormat::Rgb24),
        vec![0; 12],
    )
    .unwrap();
    assert_eq!(
        description(prepared(&rgb)),
        "unsupported: Media Foundation encoder currently accepts BGRA32 frames only"
    );
    let late = VideoFrame::new(
        0,
        Duration::from_secs(u64::MAX),
        layout(2, 2, PixelFormat::Bgra32),
        vec![0; 16],
    )
    .unwrap();
    assert_eq!(
        description(prepared(&late)),
        "invalid input: frame timestamp exceeds Media Foundation range"
    );
    assert_eq!(encoder.output_size(3), 8);
    assert_eq!(encoder.output_size(9), 9);
    assert_eq!(
        description(input_sample_size(0x1_0000, 0x1_0000)),
        "invalid input: NV12 frame size overflow"
    );
    assert!(encoder.capabilities().hardware_accelerated);
    assert!(!encoder.capabilities().supports_force_keyframe);
}

#[test]
fn media_foundation_output_becomes_packets() {
    let mut encoder = WindowsMediaFoundationH264Encoder::new(2, 2, 8, 30, features()).unwrap();
    let picture = frame(2, 2, vec![0; 16]);
    let finished = |encoder: &mut WindowsMediaFoundationH264Encoder, data: Vec<u8>| {
        encoder.finish(&picture, data).map(|outcome| match outcome {
            EncodeOutcome::Skipped => None,
            EncodeOutcome::Packet(packet) => Some((packet.sequence(), packet.is_keyframe())),
        })
    };
    assert_eq!(finished(&mut encoder, vec![]).unwrap(), None);
    assert_eq!(
        finished(&mut encoder, vec![0, 0, 1, 0x41]).unwrap(),
        Some((3, true))
    );
    assert_eq!(
        finished(&mut encoder, vec![0, 0, 1, 0x41]).unwrap(),
        Some((3, false))
    );
    assert_eq!(
        finished(&mut encoder, vec![0, 0, 1, 0x67, 0, 0, 1, 0x65]).unwrap(),
        Some((3, true))
    );
    assert!(finished(&mut encoder, vec![0, 0, 0, 9, 1]).is_err());
}

#[test]
fn media_foundation_controls_bound_the_delay() {
    let controls = codec_controls(1_000_001, 30);
    let value = |setting: CodecSetting| {
        controls
            .iter()
            .find(|control| control.setting == setting)
            .unwrap()
            .value
    };
    assert_eq!(value(CodecSetting::MeanBitrate), 1_000_001);
    assert_eq!(value(CodecSetting::BufferSize), 125_001);
    assert_eq!(value(CodecSetting::KeyframeDistance), 150);
    assert_eq!(value(CodecSetting::BFrames), 0);
    assert_eq!(codec_controls(1, u32::MAX)[10].value, u32::MAX);
    assert!(!waited_too_long(Duration::from_millis(1_999)));
    assert!(waited_too_long(Duration::from_secs(2)));
    assert_eq!(wait_step(TransformEvent::Nothing), WaitStep::Sleep);
    assert_eq!(wait_step(TransformEvent::HaveOutput), WaitStep::ReadOutput);
    assert_eq!(wait_step(TransformEvent::Failed), WaitStep::Fail);
    assert_eq!(wait_step(TransformEvent::Other), WaitStep::AskAgain);
}

#[test]
fn media_foundation_decoders_take_start_codes() {
    let open = |width: u32, height: u32| {
        WindowsMediaFoundationH264Decoder::new(width, height, features())
    };
    let decoder = open(2, 2).unwrap();
    assert_eq!(
        decoder.backend_name(),
        "windows-media-foundation-h264-decoder"
    );
    assert!(open(2, 1).is_err());
    assert_eq!(
        annex_b_sample(&[0, 0, 0, 2, 7, 8, 0, 0, 0, 3, 9, 9, 9]).unwrap(),
        vec![0, 0, 0, 1, 7, 8, 0, 0, 0, 1, 9, 9, 9]
    );
    let sample = decoder.prepare(&packet(vec![0, 0, 1, 5])).unwrap();
    assert_eq!(sample.data, vec![0, 0, 0, 1, 5]);
    assert_eq!(sample.time, 400_000);
    assert_eq!(decoder.output_size().unwrap(), 6);
    let shown = decoder
        .finish(&packet(vec![0, 0, 1, 5]), &[16, 16, 16, 16, 128, 128])
        .unwrap();
    assert_eq!(shown.sequence(), 3);
    assert_eq!(shown.data(), [0, 0, 0, 255].repeat(4));
    let prepared = |decoder: &WindowsMediaFoundationH264Decoder, packet: &EncodedVideoPacket| {
        decoder.prepare(packet).map(|sample| sample.time)
    };
    assert_eq!(
        description(prepared(&open(4, 2).unwrap(), &packet(vec![0, 0, 1, 5]))),
        "invalid input: Media Foundation decoder received changing dimensions"
    );
    let raw = EncodedVideoPacket::from_raw_frame(frame(2, 2, vec![0; 16])).unwrap();
    assert_eq!(
        description(prepared(&decoder, &raw)),
        "invalid input: Media Foundation decoder received non-H.264 data"
    );
}

#[test]
fn video_toolbox_sessions_follow_the_parameter_sets() {
    let mut decoder = VideoToolboxH264Decoder::new();
    let sets = packet(vec![0, 0, 1, 0x67, 1, 0, 0, 1, 0x68, 2, 0, 0, 1, 0x65, 3]);
    let plain = packet(vec![0, 0, 1, 0x41, 4]);
    assert_eq!(decoder.plan(&plain).unwrap(), FormatAction::Keep);
    assert_eq!(
        description(decoder.sample(&plain)),
        "codec error: VideoToolbox is waiting for H.264 SPS/PPS"
    );
    assert_eq!(decoder.plan(&sets).unwrap(), FormatAction::Rebuild);
    assert_eq!(decoder.sequence_parameters(), [0x67, 1]);
    assert_eq!(decoder.picture_parameters(), [0x68, 2]);
    decoder.rebuilt(true, true);
    assert_eq!(decoder.plan(&sets).unwrap(), FormatAction::Keep);
    assert_eq!(
        decoder.sample(&sets).unwrap(),
        vec![0, 0, 0, 2, 0x67, 1, 0, 0, 0, 2, 0x68, 2, 0, 0, 0, 2, 0x65, 3]
    );
    let changed = packet(vec![0, 0, 1, 0x68, 9]);
    assert_eq!(decoder.plan(&changed).unwrap(), FormatAction::Rebuild);
    assert!(decoder.sample(&plain).is_err());
    decoder.rebuilt(false, true);
    assert!(decoder.sample(&plain).is_err());
    let raw = EncodedVideoPacket::from_raw_frame(frame(2, 2, vec![0; 16])).unwrap();
    assert_eq!(
        description(decoder.plan(&raw)),
        "invalid input: VideoToolbox received non-H.264 data"
    );
}

#[test]
fn video_toolbox_values_are_converted() {
    assert_eq!(annex_b_to_avcc(&[]).unwrap(), vec![]);
    assert_eq!(duration_to_timescale(Duration::from_millis(50), 30), 2);
    assert_eq!(duration_to_timescale(Duration::from_millis(49), 30), 1);
    assert_eq!(
        duration_to_timescale(Duration::from_secs(u64::MAX), 30),
        i64::MAX
    );
    assert_eq!(picture_format(0x4247_5241).unwrap(), PixelFormat::Bgra32);
    assert_eq!(picture_format(0x3432_3076).unwrap(), PixelFormat::Rgb24);
    assert_eq!(picture_format(0x3432_3066).unwrap(), PixelFormat::Rgb24);
    assert_eq!(
        description(picture_format(0xab)),
        "unsupported: unsupported VideoToolbox pixel format 0x000000ab"
    );
}

#[test]
fn x264_encoders_check_and_report() {
    let open = |width: u32, bitrate: u32, slice: u32| {
        X264Encoder::new(width, 2, bitrate, 30, slice).map(|encoder| encoder.capabilities().backend)
    };
    assert_eq!(open(2, 1, 256).unwrap(), "x264");
    assert_eq!(
        description(open(1, 0, 0)),
        "invalid input: x264 dimensions must be non-zero and even"
    );
    assert_eq!(
        description(open(2, 1, 255)),
        "invalid input: x264 bitrate, frame rate and slice budget must be valid"
    );
    assert_eq!(rate_limits(1_000_001), (1_001, 501));
    assert_eq!(rate_limits(0), (1, 1));

    let mut encoder = X264Encoder::new(2, 2, 1, 30, 256).unwrap();
    let picture = frame(2, 2, vec![0; 16]);
    let parameters = encoder.prepare(&picture).unwrap();
    assert_eq!((parameters.stride, parameters.timestamp), (8, 3));
    assert_eq!(
        description(encoder.prepare(&frame(2, 4, vec![0; 32]))),
        "invalid input: x264 received a frame with changing dimensions"
    );
    let keyframe = |outcome: Result<EncodeOutcome, DcError>| match outcome.unwrap() {
        EncodeOutcome::Packet(packet) => Some(packet.is_keyframe()),
        EncodeOutcome::Skipped => None,
    };
    let (outcome, report) = encoder.finish(&picture, false, vec![]);
    assert_eq!((keyframe(outcome), report), (None, None));
    let (outcome, report) = encoder.finish(&picture, false, vec![0, 0, 1, 0x65, 0]);
    assert_eq!(keyframe(outcome), Some(true));
    let report = report.unwrap();
    assert_eq!((report.units, report.largest, report.over_budget), (1, 2, false));
    let (outcome, report) = encoder.finish(&picture, false, vec![0, 0, 1, 0x41, 7]);
    assert_eq!((keyframe(outcome), report), (Some(false), None));
    let mut long = vec![0, 0, 1];
    long.extend([0x41; 257]);
    let (outcome, report) = encoder.finish(&picture, true, long);
    assert_eq!(keyframe(outcome), Some(true));
    assert!(report.unwrap().over_budget);
}

#[test]
fn hardware_decoders_give_way() {
    let mut lazy = ViewerDecoder::lazy();
    assert!(lazy.opens_hardware());
    assert!(!lazy.opens_hardware());
    lazy.hardware_opened();
    assert_eq!(lazy.on_hardware_failure(false), FallbackStep::TrySoftware);
    assert!(!lazy.hardware);
    assert!(!lazy.opens_hardware());

    let mut opened = ViewerDecoder::opened();
    assert_eq!(
        opened.on_hardware_failure(false),
        FallbackStep::ReturnFailure
    );
    assert!(opened.hardware);
    assert_eq!(opened.on_hardware_failure(true), FallbackStep::TrySoftware);
    let failure = opened.on_software_failure(
        &DcError::Codec("a".into()),
        DcError::InvalidInput("b".into()),
    );
    assert_eq!(
        failure.description(),
        "codec error: VideoToolbox decode failed: codec error: a; OpenH264 fallback failed: invalid input: b"
    );
    assert!(opened.hardware);
    opened.on_software_success();
    assert!(!opened.hardware);
    assert_eq!(fallback_minimum_qp(64_000), 42);
    assert_eq!(fallback_minimum_qp(64_001), 36);
}

#[test]
fn openh264_stands_in_for_a_transform_only() {
    let mut choice = HostFallback::new(false, true);
    assert_eq!(choice.backend, HostBackend::Transform);
    assert_eq!(choice.on_failure(), FallbackStep::TrySoftware);
    assert_eq!(choice.backend, HostBackend::Software);
    assert_eq!(choice.minimum_qp(64_000), 42);
    assert_eq!(choice.minimum_qp(96_000), 36);
    assert_eq!(choice.on_failure(), FallbackStep::ReturnFailure);
    let mut native = HostFallback::new(true, true);
    assert_eq!(native.backend, HostBackend::X264);
    assert_eq!(native.on_failure(), FallbackStep::ReturnFailure);
    assert_eq!(native.backend, HostBackend::X264);
    let software = HostFallback::new(false, false);
    assert_eq!(software.backend, HostBackend::Software);
    assert_eq!(software.minimum_qp(64_000), 0);
}
