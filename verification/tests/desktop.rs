use direct_computing::desktop::{
    changed_area, decode_region_payload, encode_region_update, message_to_packet,
    message_to_packet_ref, packet_to_message, validate_input, DirtyRegionDetector, RateController,
    RateSample, RateSettings, REGION_ENCODING_PACK_BITS, REGION_ENCODING_RAW,
};
use direct_computing::error::DcError;
use direct_computing::media::{
    DamageRect, EncodedVideoPacket, FrameLayout, FrameMetadata, FrameSize, PixelFormat, VideoCodec,
    VideoFrame,
};
use direct_computing::protocol::{DesktopRect, InputEvent, WireMessage};
use direct_computing::time::Duration;

#[test]
fn packet_message_round_trip_preserves_metadata() {
    let size = FrameSize::new(2, 2).unwrap();
    let layout = FrameLayout::packed(size, PixelFormat::Bgra32).unwrap();
    let packet = EncodedVideoPacket::new(
        VideoCodec::H264,
        4,
        Duration::from_millis(8),
        true,
        layout,
        vec![1, 2],
    )
    .unwrap();
    assert_eq!(
        message_to_packet(packet_to_message(&packet).unwrap()).unwrap(),
        packet
    );
}

#[test]
fn rate_controller_reduces_settings_when_network_is_congested() {
    let mut controller = RateController::new(
        RateSettings {
            bitrate: 1_000,
            frames_per_second: 30,
        },
        RateSettings {
            bitrate: 400,
            frames_per_second: 5,
        },
        RateSettings {
            bitrate: 2_000,
            frames_per_second: 60,
        },
    );
    let result = controller.update(RateSample {
        rtt: Duration::from_millis(200),
        loss_percent: 0,
        queue_depth: 0,
        encode_time: Duration::zero(),
    });
    assert!(result.bitrate < 1_000 && result.frames_per_second < 30);
}

#[test]
fn validates_pointer_buttons_and_wheel_bounds() {
    assert!(validate_input(
        &InputEvent::Wheel {
            delta_x: 120,
            delta_y: -240,
        },
        100,
        100,
    )
    .is_ok());
    assert!(validate_input(
        &InputEvent::Wheel {
            delta_x: 0,
            delta_y: 12_001,
        },
        100,
        100,
    )
    .is_err());
    assert!(validate_input(
        &InputEvent::Pointer {
            x: 1,
            y: 1,
            buttons: 0x80,
        },
        100,
        100,
    )
    .is_err());
}

fn frame(data: Vec<u8>) -> VideoFrame {
    let size = FrameSize::new(128, 64).unwrap();
    let layout = FrameLayout::packed(size, PixelFormat::Bgra32).unwrap();
    VideoFrame::new(0, Duration::zero(), layout, data).unwrap()
}

#[test]
fn detector_reports_only_changed_tiles_after_first_frame() {
    let mut detector = DirtyRegionDetector::default();
    let first = frame(vec![0; 128 * 64 * 4]);
    assert_eq!(detector.detect(&first).unwrap()[0].width, 128);
    let mut data = first.data().to_vec();
    data[(10 * 128 + 70) * 4] = 1;
    let regions = detector.detect(&frame(data)).unwrap();
    assert_eq!(
        regions,
        vec![DamageRect {
            x: 64,
            y: 0,
            width: 64,
            height: 64
        }]
    );
}

#[test]
fn region_encoding_round_trips() {
    let frame = frame(vec![0xff; 128 * 64 * 4]);
    let message = encode_region_update(
        &frame,
        &[DamageRect {
            x: 4,
            y: 2,
            width: 8,
            height: 3,
        }],
        7,
    )
    .unwrap();
    assert_eq!(
        decode_region_payload(&message).unwrap(),
        vec![0xff; 8 * 3 * 4]
    );
}

#[test]
fn pixel_diff_recovers_when_source_metadata_is_empty() {
    let mut detector = DirtyRegionDetector::default();
    let size = FrameSize::new(128, 64).unwrap();
    let layout = FrameLayout::packed(size, PixelFormat::Bgra32).unwrap();
    let first = VideoFrame::new(0, Duration::zero(), layout, vec![0; 128 * 64 * 4])
        .unwrap()
        .with_metadata(FrameMetadata {
            damage: Some(Vec::new()),
            cursor: None,
        })
        .unwrap();
    detector.detect(&first).unwrap();
    let mut data = first.data().to_vec();
    data[(10 * 128 + 70) * 4] = 1;
    let second = VideoFrame::new(1, Duration::from_millis(1), layout, data)
        .unwrap()
        .with_metadata(FrameMetadata {
            damage: Some(Vec::new()),
            cursor: None,
        })
        .unwrap();
    assert_eq!(
        detector.detect(&second).unwrap(),
        vec![DamageRect {
            x: 64,
            y: 0,
            width: 64,
            height: 64,
        }]
    );
}

fn description<T: std::fmt::Debug>(result: Result<T, DcError>) -> String {
    result.unwrap_err().description()
}

fn sample(rtt_millis: u64, loss_percent: u8, queue_depth: u16, encode_millis: u64) -> RateSample {
    RateSample {
        rtt: Duration::from_millis(rtt_millis),
        loss_percent,
        queue_depth,
        encode_time: Duration::from_millis(encode_millis),
    }
}

#[test]
fn rates_follow_the_samples_within_their_bounds() {
    let settings = |bitrate: u32, frames_per_second: u16| RateSettings {
        bitrate,
        frames_per_second,
    };
    let mut controller =
        RateController::new(settings(1_000, 30), settings(700, 25), settings(1_040, 26));
    assert_eq!(controller.update(sample(0, 5, 0, 0)), settings(800, 25));
    assert_eq!(controller.update(sample(0, 0, 3, 0)), settings(700, 25));
    assert_eq!(controller.update(sample(149, 4, 2, 44)), settings(735, 26));
    assert_eq!(controller.update(sample(0, 0, 0, 45)), settings(700, 25));
    for _ in 0..20 {
        controller.update(sample(0, 0, 0, 0));
    }
    assert_eq!(controller.settings(), settings(1_040, 26));
}

#[test]
fn pointers_outside_the_desktop_are_refused() {
    let pointer = |x: i32, y: i32, width: u32| {
        validate_input(&InputEvent::Pointer { x, y, buttons: 0 }, width, 10)
    };
    assert!(pointer(9, 9, 10).is_ok());
    for (x, y, width) in [(10, 0, 10), (0, 10, 10), (-1, 0, 10), (0, 0, u32::MAX)] {
        assert_eq!(
            description(pointer(x, y, width)),
            "invalid input: pointer position is outside the desktop"
        );
    }
}

#[test]
fn unknown_packets_are_refused() {
    let video = |codec: u8, width: u32, pixel_format: u8| WireMessage::Video {
        codec,
        sequence: 0,
        timestamp_millis: 0,
        keyframe: true,
        width,
        height: 1,
        pixel_format,
        stride: 4,
        data: vec![1],
    };
    assert!(message_to_packet_ref(&video(1, 1, 1)).is_ok());
    assert_eq!(
        description(message_to_packet(WireMessage::Close)),
        "invalid input: expected video message"
    );
    assert_eq!(
        description(message_to_packet(video(9, 1, 1))),
        "codec error: unknown video codec"
    );
    assert_eq!(
        description(message_to_packet(video(1, 1, 9))),
        "codec error: unknown pixel format"
    );
    assert_eq!(
        description(message_to_packet(video(1, 0, 1))),
        "invalid input: frame width and height must be non-zero"
    );
}

#[test]
fn unchanged_frames_report_nothing() {
    let mut detector = DirtyRegionDetector::default();
    let data = vec![3; 128 * 64 * 4];
    detector.detect(&frame(data.clone())).unwrap();
    assert_eq!(detector.detect(&frame(data)).unwrap(), vec![]);
}

#[test]
fn changed_tiles_are_joined_in_a_row() {
    let mut detector = DirtyRegionDetector::default();
    detector.detect(&frame(vec![0; 128 * 64 * 4])).unwrap();
    let regions = detector.detect(&frame(vec![1; 128 * 64 * 4])).unwrap();
    assert_eq!(
        regions,
        vec![DamageRect {
            x: 0,
            y: 0,
            width: 128,
            height: 64
        }]
    );
    assert_eq!(changed_area(&regions), 128 * 64);
}

fn damage(x: u32, y: u32, width: u32, height: u32) -> DamageRect {
    DamageRect {
        x,
        y,
        width,
        height,
    }
}

#[test]
fn updates_are_packed_where_that_is_shorter() {
    let encoding = |message: &WireMessage| match message {
        WireMessage::DesktopUpdate { encoding, .. } => *encoding,
        _ => panic!("an update is expected"),
    };
    let flat = frame(vec![7; 128 * 64 * 4]);
    let packed = encode_region_update(&flat, &[damage(0, 0, 8, 8)], 0).unwrap();
    assert_eq!(encoding(&packed), REGION_ENCODING_PACK_BITS);
    let mut data = vec![0; 128 * 64 * 4];
    for (index, byte) in data.iter_mut().enumerate() {
        *byte = (index % 251) as u8;
    }
    let busy = frame(data);
    let rects = [damage(1, 2, 3, 2), damage(100, 60, 28, 4)];
    let raw = encode_region_update(&busy, &rects, 0).unwrap();
    assert_eq!(encoding(&raw), REGION_ENCODING_RAW);
    let payload = decode_region_payload(&raw).unwrap();
    let start = (2 * 128 + 1) * 4;
    assert_eq!(payload[..12], busy.data()[start..start + 12]);
    assert_eq!(payload.len(), (6 + 28 * 4) * 4);
}

#[test]
fn updates_that_cannot_be_read_are_refused() {
    let flat = frame(vec![7; 128 * 64 * 4]);
    assert_eq!(
        description(encode_region_update(&flat, &[], 0)),
        "invalid input: region update has an invalid region count"
    );
    assert_eq!(
        description(encode_region_update(&flat, &[damage(120, 0, 9, 1)], 0)),
        "codec error: desktop update region is outside the frame"
    );
    let size = FrameSize::new(1, 1).unwrap();
    let layout = FrameLayout::packed(size, PixelFormat::Rgb24).unwrap();
    let rgb = VideoFrame::new(0, Duration::zero(), layout, vec![0; 3]).unwrap();
    assert_eq!(
        description(encode_region_update(&rgb, &[damage(0, 0, 1, 1)], 0)),
        "unsupported: region encoding currently requires BGRA32 input"
    );
    let update = |encoding: u8, data: Vec<u8>| WireMessage::DesktopUpdate {
        sequence: 0,
        timestamp_millis: 0,
        desktop_width: 2,
        desktop_height: 1,
        encoding,
        regions: vec![DesktopRect {
            x: 0,
            y: 0,
            width: 2,
            height: 1,
        }],
        data,
    };
    let refused = |encoding: u8, data: Vec<u8>| {
        description(decode_region_payload(&update(encoding, data)))
    };
    assert_eq!(
        description(decode_region_payload(&WireMessage::Close)),
        "invalid input: expected desktop update"
    );
    assert_eq!(
        refused(9, vec![]),
        "codec error: unknown desktop region encoding"
    );
    assert_eq!(
        refused(REGION_ENCODING_RAW, vec![0; 7]),
        "codec error: raw desktop update has the wrong payload size"
    );
    assert!(decode_region_payload(&update(REGION_ENCODING_RAW, vec![5; 8])).is_ok());
    for data in [vec![], vec![0x81], vec![0xff], vec![3, 1, 2]] {
        assert!(decode_region_payload(&update(REGION_ENCODING_PACK_BITS, data)).is_err());
    }
}

fn padded_frame(data: Vec<u8>) -> VideoFrame {
    let size = FrameSize::new(130, 70).unwrap();
    let layout = FrameLayout::with_stride(size, PixelFormat::Bgra32, 536).unwrap();
    VideoFrame::new(0, Duration::zero(), layout, data).unwrap()
}

#[test]
fn row_padding_is_no_change() {
    let mut detector = DirtyRegionDetector::default();
    let mut data = vec![0; 536 * 70];
    detector.detect(&padded_frame(data.clone())).unwrap();
    for row in 0..70 {
        data[row * 536 + 520] = 9;
        data[row * 536 + 535] = 9;
    }
    assert_eq!(
        detector.detect(&padded_frame(data.clone())).unwrap(),
        vec![]
    );
    data[69 * 536 + 519] = 1;
    assert_eq!(
        detector.detect(&padded_frame(data)).unwrap(),
        vec![damage(128, 64, 2, 6)]
    );
}

#[test]
fn reported_regions_do_not_overlap() {
    let mut detector = DirtyRegionDetector::default();
    let mut data = vec![0; 536 * 70];
    detector.detect(&padded_frame(data.clone())).unwrap();
    for (x, y) in [(3, 5), (129, 9), (70, 66), (129, 69)] {
        data[y * 536 + x * 4] = 1;
    }
    let regions = detector.detect(&padded_frame(data.clone())).unwrap();
    assert_eq!(
        regions,
        vec![
            damage(0, 0, 64, 64),
            damage(128, 0, 2, 64),
            damage(64, 64, 66, 6)
        ]
    );
    for y in 0..70 {
        for x in 0..130 {
            let holders = regions
                .iter()
                .filter(|r| r.x <= x && x < r.x + r.width && r.y <= y && y < r.y + r.height)
                .count();
            assert!(holders <= 1);
        }
    }
    assert_eq!(detector.detect(&padded_frame(data)).unwrap(), vec![]);
}
