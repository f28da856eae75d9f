use direct_computing::auth::Permissions;
use direct_computing::desktop::packetize_h264_nal_message;
use direct_computing::error::DcError;
use direct_computing::media::{
    CursorShape, CursorShapeKind, CursorUpdate, EncodedVideoPacket, FrameLayout, FrameMetadata,
    FrameSize, PixelFormat, VideoCodec, VideoFrame,
};
use direct_computing::protocol::{Capabilities, InputEvent, KeyboardKey, WireMessage};
use direct_computing::stream::arguments::usage;
use direct_computing::stream::host::media_capabilities;
use direct_computing::stream::{
    accept_reliable, check_datagram_support, check_view_permission, cursor_to_message, dispatch,
    increase_stream_rate, is_effectively_zero_frame, parse_arguments, plan_input,
    prepare_network_frame, receive_host_input, reduce_stream_rate, slice_budget, video_sequence,
    Command, ControlAction, DatagramLanes, EncodedFrame, EncoderAction, FrameAction, FrameProducer,
    LaneOutcome, MediaFeatures, RateProfile, SendAction, StartupCapture, StreamControl,
    TimeoutAction, ViewerAction, ViewerStream,
};
use direct_computing::time::Duration;

#[test]
fn rate_reduction_reaches_but_does_not_cross_floor() {
    assert_eq!(reduce_stream_rate(320_000, 8, 96_000, 4), (213_333, 5));
    assert_eq!(reduce_stream_rate(160_000, 5, 64_000, 3), (106_666, 3));
    assert_eq!(reduce_stream_rate(64_000, 3, 64_000, 3), (64_000, 3));
    assert_eq!(increase_stream_rate(96_000, 4, 320_000, 8), (128_001, 5));
    assert_eq!(increase_stream_rate(320_000, 8, 320_000, 8), (320_000, 8));
}

#[test]
fn stream_control_clamps_untrusted_rate_hints() {
    let profile = RateProfile::balanced();
    let mut control = StreamControl::new(profile);
    control.update_rate(1, 1);
    assert_eq!(control.target_bitrate(), profile.min_bitrate);
    assert_eq!(control.target_fps(), profile.min_fps);
    control.update_rate(u32::MAX, u16::MAX);
    assert_eq!(control.target_bitrate(), profile.max_bitrate);
    assert_eq!(control.target_fps(), profile.max_fps);
}

#[test]
fn oversized_frame_at_rate_floor_does_not_start_recovery_loop() {
    let profile = RateProfile::balanced();
    let mut control = StreamControl::new(profile);
    control.update_rate(profile.min_bitrate, profile.min_fps as u16);
    assert_eq!(
        control.request_lower_rate_keyframe(),
        None,
        "a floor-rate stream must not repeatedly queue identical recovery keyframes"
    );
    assert!(!control.recovery_pending());
    assert!(!control.keyframe_requested());
}

#[test]
fn startup_zero_frame_detection_allows_real_content() {
    let size = FrameSize::new(2, 2).unwrap();
    let layout = FrameLayout::packed(size, PixelFormat::Bgra32).unwrap();
    let zero = VideoFrame::new(0, Duration::zero(), layout, vec![0; 16]).unwrap();
    let mut content_bytes = vec![0; 16];
    content_bytes[4] = 5;
    let content = VideoFrame::new(1, Duration::zero(), layout, content_bytes).unwrap();
    assert!(is_effectively_zero_frame(&zero));
    assert!(!is_effectively_zero_frame(&content));
}

#[test]
fn color_depth_reduction_preserves_frame_geometry() {
    let size = FrameSize::new(2, 1).unwrap();
    let layout = FrameLayout::packed(size, PixelFormat::Bgra32).unwrap();
    let frame = VideoFrame::new(
        7,
        Duration::zero(),
        layout,
        vec![0x13, 0x27, 0x3b, 0xff, 0x45, 0x59, 0x6d, 0xff],
    )
    .unwrap();
    let reduced = prepare_network_frame(frame, RateProfile::balanced()).unwrap();
    assert_eq!(reduced.layout().size(), size);
    assert_eq!(
        reduced.data(),
        &[0x10, 0x24, 0x38, 0xff, 0x40, 0x58, 0x68, 0xff]
    );
}

#[test]
fn keyframe_recovery_requests_are_coalesced_until_acknowledged() {
    let mut control = StreamControl::new(RateProfile::balanced());
    assert!(control.request_keyframe());
    assert!(!control.request_keyframe());
    control.acknowledge_keyframe();
    assert!(control.request_keyframe());
}

const ALL: MediaFeatures = MediaFeatures {
    hybrid_video: true,
    desktop_optimizations: true,
    h264_nal_datagrams: true,
};

const NONE: MediaFeatures = MediaFeatures {
    hybrid_video: false,
    desktop_optimizations: false,
    h264_nal_datagrams: false,
};

fn secs(count: u64) -> Duration {
    Duration::from_secs(count)
}

fn desktop(sequence: u64, changed: Option<usize>) -> VideoFrame {
    let size = FrameSize::new(128, 128).unwrap();
    let layout = FrameLayout::packed(size, PixelFormat::Bgra32).unwrap();
    let mut data = vec![0; 128 * 128 * 4];
    if let Some(at) = changed {
        data[at] = 9;
    }
    VideoFrame::new(sequence, Duration::zero(), layout, data).unwrap()
}

fn picture(sequence: u64, keyframe: bool, data: Vec<u8>) -> WireMessage {
    WireMessage::Video {
        codec: 1,
        sequence,
        timestamp_millis: 0,
        keyframe,
        width: 64,
        height: 48,
        pixel_format: 1,
        stride: 256,
        data,
    }
}

fn packet(keyframe: bool) -> EncodedVideoPacket {
    let size = FrameSize::new(128, 128).unwrap();
    let layout = FrameLayout::packed(size, PixelFormat::Bgra32).unwrap();
    EncodedVideoPacket::new(
        VideoCodec::H264,
        99,
        Duration::zero(),
        keyframe,
        layout,
        vec![0, 0, 1, 0x41],
    )
    .unwrap()
}

fn queued(message: WireMessage, reliable_barrier: bool) -> EncodedFrame {
    EncodedFrame {
        message,
        sequence: 0,
        encoded_bytes: 0,
        reliable_barrier,
    }
}

fn control() -> StreamControl {
    StreamControl::new(RateProfile::balanced())
}

fn description<T>(result: Result<T, DcError>) -> String {
    match result {
        Ok(_) => panic!("an error is expected"),
        Err(error) => error.description(),
    }
}

#[test]
fn rates_come_down_to_the_floor_and_up_to_the_ceiling() {
    let profile = RateProfile::ultra_low();
    let mut rates = (profile.max_bitrate, profile.max_fps as u16);
    for _ in 0..20 {
        rates = reduce_stream_rate(rates.0, rates.1, profile.min_bitrate, profile.min_fps);
    }
    assert_eq!(rates, (profile.min_bitrate, profile.min_fps as u16));
    for _ in 0..20 {
        rates = increase_stream_rate(rates.0, rates.1, profile.max_bitrate, profile.max_fps);
    }
    assert_eq!(rates, (profile.max_bitrate, profile.max_fps as u16));
}

#[test]
fn a_lower_rate_and_a_keyframe_are_asked_for_together() {
    let mut control = control();
    assert_eq!(control.request_lower_rate_keyframe(), Some((666_666, 8)));
    assert_eq!((control.target_bitrate(), control.target_fps()), (666_666, 8));
    assert!(control.keyframe_requested() && control.recovery_pending());
    assert_eq!(control.request_lower_rate_keyframe(), None);
    assert!(control.take_keyframe_request());
    assert!(!control.take_keyframe_request());
    assert!(control.is_paused(true));
    assert!(!control.is_paused(false));
    control.acknowledge_keyframe();
    assert!(!control.is_paused(true));
}

#[test]
fn color_reduction_is_stable() {
    let profile = RateProfile::ultra_low();
    let once = prepare_network_frame(desktop(0, Some(5)), profile).unwrap();
    let data = once.data().to_vec();
    let twice = prepare_network_frame(once, profile).unwrap();
    assert_eq!(twice.data(), data);
}

#[test]
fn media_features_need_reliable_keyframes() {
    let mut peer = media_capabilities();
    assert_eq!(MediaFeatures::negotiated(peer), ALL);
    peer.hybrid_video = false;
    assert_eq!(MediaFeatures::negotiated(peer), NONE);
    let nothing = Capabilities {
        desktop: true,
        control_input: true,
        terminal: false,
        command_execution: false,
        file_transfer: false,
        clipboard: false,
        ssh_compatibility: false,
        hybrid_video: true,
        desktop_optimizations: false,
        h264_nal_datagrams: false,
    };
    assert_eq!(
        MediaFeatures::negotiated(nothing),
        MediaFeatures {
            hybrid_video: true,
            ..NONE
        }
    );
}

#[test]
fn slices_fit_into_datagrams() {
    assert_eq!(slice_budget(Some(1_200)).unwrap(), 1_072);
    assert_eq!(slice_budget(Some(100)).unwrap(), 256);
    assert_eq!(
        description(slice_budget(None)),
        "unsupported: peer did not negotiate QUIC DATAGRAM support"
    );
    assert_eq!(
        description(slice_budget(Some(usize::MAX))),
        "invalid input: datagram size exceeds encoder limits"
    );
}

#[test]
fn black_frames_are_used_only_after_a_time_of_grace() {
    let mut startup = StartupCapture::new();
    assert!(startup.on_timeout(secs(60)).is_none());
    assert!(startup.on_frame(desktop(0, None), secs(0)).is_none());
    assert!(startup.on_timeout(secs(0)).is_none());
    let first = startup.on_timeout(secs(60)).unwrap();
    assert_eq!(first.sequence(), 0);
    assert!(startup.on_frame(desktop(1, None), secs(60)).is_some());
    assert!(startup.on_frame(desktop(2, Some(0)), secs(0)).is_some());
}

#[test]
fn unchanged_frames_are_left_out() {
    let mut control = control();
    let mut producer = FrameProducer::new(ALL, &control, secs(0));
    let (dirty, news) = producer.observe(&desktop(0, None)).unwrap();
    assert!(news.is_none());
    assert_eq!(dirty.rects().len(), 1);
    assert!(matches!(
        producer.decide(&desktop(0, None), &dirty, false, secs(0)).unwrap(),
        FrameAction::Encode
    ));
    let first = producer
        .on_packet(packet(true), false, secs(0), &mut control)
        .unwrap();
    assert_eq!((first.sequence, first.reliable_barrier), (0, true));
    assert!(producer.waits_for_queue(&first));
    assert!(control.recovery_pending());
    producer.finish(desktop(0, None));

    let (dirty, _) = producer.observe(&desktop(1, None)).unwrap();
    assert!(dirty.rects().is_empty());
    assert!(matches!(
        producer.decide(&desktop(1, None), &dirty, false, secs(0)).unwrap(),
        FrameAction::Skip
    ));
    assert!(matches!(
        producer.decide(&desktop(1, None), &dirty, true, secs(0)).unwrap(),
        FrameAction::Encode
    ));
}

#[test]
fn small_changes_are_sent_as_regions() {
    let mut control = control();
    let mut producer = FrameProducer::new(ALL, &control, secs(0));
    producer.observe(&desktop(0, None)).unwrap();
    producer
        .on_packet(packet(true), false, secs(0), &mut control)
        .unwrap();
    let changed = desktop(1, Some(0));
    let (dirty, _) = producer.observe(&changed).unwrap();
    let FrameAction::Region(region) = producer.decide(&changed, &dirty, false, secs(0)).unwrap()
    else {
        panic!("a region update is expected");
    };
    assert_eq!((region.sequence, region.reliable_barrier), (1, false));
    assert!(matches!(
        region.message,
        WireMessage::DesktopUpdate { sequence: 1, .. }
    ));
    let next = producer
        .on_packet(packet(false), false, secs(0), &mut control)
        .unwrap();
    assert_eq!((next.sequence, next.reliable_barrier), (2, false));
    assert_eq!(video_sequence(&next.message), Some(2));
}

#[test]
fn an_old_full_frame_is_refreshed() {
    let mut control = control();
    let mut producer = FrameProducer::new(ALL, &control, secs(0));
    producer.observe(&desktop(0, None)).unwrap();
    producer
        .on_packet(packet(true), false, secs(0), &mut control)
        .unwrap();
    producer.finish(desktop(0, None));
    let (dirty, _) = producer.observe(&desktop(1, None)).unwrap();
    assert!(matches!(
        producer.decide(&desktop(1, None), &dirty, false, secs(3_600)).unwrap(),
        FrameAction::Encode
    ));
    assert!(matches!(
        producer.on_timeout(&control, secs(0)).unwrap(),
        TimeoutAction::Wait
    ));
    let TimeoutAction::Resend(frame) = producer.on_timeout(&control, secs(3_600)).unwrap() else {
        panic!("the last frame has to be sent again");
    };
    assert_eq!(frame.sequence(), 2);
    control.acknowledge_keyframe();
    control.request_keyframe();
    assert!(matches!(
        producer.on_timeout(&control, secs(0)).unwrap(),
        TimeoutAction::Resend(_)
    ));
    control.shut_down();
    assert!(matches!(
        producer.on_timeout(&control, secs(0)).unwrap(),
        TimeoutAction::Stop
    ));
    let mut fresh = StreamControl::new(RateProfile::balanced());
    fresh.request_keyframe();
    assert_eq!(
        description(FrameProducer::new(ALL, &fresh, secs(0)).on_timeout(&fresh, secs(0))),
        "platform error: keyframe requested before a recoverable frame existed"
    );
}

#[test]
fn encoders_follow_the_requests() {
    let mut control = control();
    let mut producer = FrameProducer::new(NONE, &control, secs(0));
    assert_eq!(producer.plan(&mut control), EncoderAction::Keep);
    control.request_keyframe();
    assert_eq!(producer.plan(&mut control), EncoderAction::ForceKeyframe);
    assert_eq!(producer.plan(&mut control), EncoderAction::Keep);
    control.update_rate(500_000, 10);
    assert_eq!(
        producer.plan(&mut control),
        EncoderAction::Recreate {
            bitrate: 500_000,
            fps: 10
        }
    );
    assert_eq!((producer.bitrate(), producer.fps()), (500_000, 10));
    assert_eq!(producer.frame_interval(), Duration::from_millis(100));
    assert_eq!(producer.pace(secs(0)), Duration::from_millis(100));
    assert_eq!(
        producer.pace(Duration::from_millis(150)),
        Duration::from_millis(50)
    );
    assert_eq!(producer.pace(secs(9)), Duration::zero());
}

fn with_cursor(sequence: u64, x: i32) -> VideoFrame {
    desktop(sequence, None)
        .with_metadata(FrameMetadata {
            damage: None,
            cursor: Some(CursorUpdate {
                visible: true,
                x,
                y: 2,
                shape: Some(CursorShape {
                    kind: CursorShapeKind::MaskedColor,
                    width: 1,
                    height: 1,
                    hotspot_x: 0,
                    hotspot_y: 0,
                    pitch: 4,
                    data: vec![1, 2, 3, 4],
                }),
            }),
        })
        .unwrap()
}

#[test]
fn cursors_are_told_once() {
    let control = control();
    let mut producer = FrameProducer::new(ALL, &control, secs(0));
    let frame = with_cursor(0, 1);
    let (_, news) = producer.observe(&frame).unwrap();
    let news = news.unwrap();
    assert_eq!(
        news.message,
        cursor_to_message(0, frame.metadata().cursor.as_ref().unwrap())
    );
    let WireMessage::Cursor { shape, x, .. } = &news.message else {
        panic!("a cursor is expected");
    };
    assert_eq!((shape.as_ref().unwrap().kind, *x), (4, 1));
    producer.cursor_sent(&frame);
    assert!(producer.observe(&with_cursor(1, 1)).unwrap().1.is_none());
    let moved = producer.observe(&with_cursor(2, 5)).unwrap().1.unwrap();
    assert_eq!(moved.sequence, 1);
    let mut plain = FrameProducer::new(NONE, &control, secs(0));
    assert!(plain.observe(&with_cursor(0, 1)).unwrap().1.is_none());
}

#[test]
fn keyframes_are_sent_reliably_and_others_wait_for_them() {
    let mut control = control();
    let keyframe = queued(picture(1, true, vec![0, 0, 1, 0x65]), true);
    let other = queued(picture(2, false, vec![0, 0, 1, 0x41]), false);
    assert!(matches!(
        dispatch(ALL, &mut control, &keyframe, 1_200).unwrap(),
        SendAction::Reliable { barrier: true }
    ));
    control.await_keyframe();
    assert!(matches!(
        dispatch(ALL, &mut control, &other, 1_200).unwrap(),
        SendAction::Withhold
    ));
    control.acknowledge_keyframe();
    assert!(matches!(
        dispatch(ALL, &mut control, &other, 1_200).unwrap(),
        SendAction::Datagrams {
            acknowledge: false,
            ..
        }
    ));
    assert!(matches!(
        dispatch(NONE, &mut control, &keyframe, 1_200).unwrap(),
        SendAction::Datagrams {
            acknowledge: true,
            ..
        }
    ));
    let cursor = queued(
        WireMessage::Cursor {
            sequence: 0,
            visible: true,
            x: 0,
            y: 0,
            shape: None,
        },
        false,
    );
    assert!(matches!(
        dispatch(ALL, &mut control, &cursor, 1_200).unwrap(),
        SendAction::Reliable { barrier: false }
    ));
    assert_eq!(
        description(dispatch(NONE, &mut control, &cursor, 1_200)),
        "codec error: cursor update requires reliable media"
    );
}

#[test]
fn oversized_frames_ask_for_lower_rates() {
    let mut control = control();
    let large = queued(picture(1, false, vec![7; 60_000]), false);
    let SendAction::Oversized { rates, .. } = dispatch(NONE, &mut control, &large, 500).unwrap() else {
        panic!("the frame is too large");
    };
    assert_eq!(rates, Some((666_666, 8)));
    assert!(control.keyframe_requested());
    let SendAction::Oversized { rates, .. } = dispatch(NONE, &mut control, &large, 500).unwrap() else {
        panic!("the frame is too large");
    };
    assert_eq!(rates, None);
    let SendAction::Datagrams { fragments, .. } =
        dispatch(NONE, &mut control, &queued(picture(1, false, vec![7; 2_000]), false), 500).unwrap()
    else {
        panic!("the frame is small enough");
    };
    assert!(fragments.iter().all(|fragment| fragment.len() <= 500));
}

#[test]
fn viewers_control_the_host() {
    let mut control = control();
    let event = InputEvent::Key {
        key: KeyboardKey::A,
        pressed: true,
    };
    assert_eq!(
        receive_host_input(&mut control, &WireMessage::Input(event), true).unwrap(),
        ControlAction::Inject(event)
    );
    assert_eq!(
        description(receive_host_input(
            &mut control,
            &WireMessage::Input(event),
            false
        )),
        "unsupported: remote input injection requires Windows Host"
    );
    receive_host_input(
        &mut control,
        &WireMessage::KeyframeRequest { last_sequence: 0 },
        true,
    )
    .unwrap();
    assert!(control.keyframe_requested());
    receive_host_input(&mut control, &WireMessage::KeyframeAck { sequence: 0 }, true).unwrap();
    assert!(!control.recovery_pending());
    receive_host_input(
        &mut control,
        &WireMessage::RateHint {
            bitrate: 1,
            frames_per_second: 7,
        },
        true,
    )
    .unwrap();
    assert_eq!((control.target_bitrate(), control.target_fps()), (384_000, 7));
    assert_eq!(
        receive_host_input(&mut control, &WireMessage::Close, true).unwrap(),
        ControlAction::Stop
    );
    assert!(control.is_shut_down());
}

fn decodes(viewer: &mut ViewerStream, message: &WireMessage, at: u64) -> Option<bool> {
    match viewer.on_message(message, secs(at), 0).unwrap() {
        ViewerAction::Decode { reset, .. } => Some(reset),
        _ => None,
    }
}

#[test]
fn viewers_wait_for_a_keyframe() {
    let mut viewer = ViewerStream::new(ALL, RateProfile::balanced(), secs(0));
    let other = picture(4, false, vec![1]);
    let ViewerAction::Withhold { request } = viewer.on_message(&other, secs(0), 0).unwrap() else {
        panic!("a keyframe is missing");
    };
    assert_eq!(
        request,
        Some(WireMessage::KeyframeRequest { last_sequence: 4 })
    );
    let ViewerAction::Withhold { request } = viewer.on_message(&other, secs(0), 0).unwrap() else {
        panic!("a keyframe is missing");
    };
    assert_eq!(request, None);
    assert_eq!(
        decodes(&mut viewer, &picture(5, true, vec![1]), 0),
        Some(true)
    );
    assert_eq!(
        viewer.on_presented(5, true, secs(0)),
        Some(WireMessage::KeyframeAck { sequence: 5 })
    );
    assert_eq!(viewer.desktop_size(), Some((64, 48)));
    assert_eq!(
        decodes(&mut viewer, &picture(6, false, vec![1]), 0),
        Some(false)
    );
    assert_eq!(viewer.on_presented(6, false, secs(0)), None);
    assert_eq!(viewer.last_sequence(), Some(6));
    assert!(matches!(
        viewer.on_message(&picture(6, true, vec![1]), secs(0), 0).unwrap(),
        ViewerAction::Ignore
    ));
    assert_eq!(decodes(&mut viewer, &picture(9, false, vec![1]), 0), None);
}

#[test]
fn a_picture_that_cannot_be_decoded_asks_for_a_keyframe() {
    let mut viewer = ViewerStream::new(NONE, RateProfile::balanced(), secs(0));
    assert_eq!(
        decodes(&mut viewer, &picture(0, true, vec![1]), 0),
        Some(true)
    );
    assert_eq!(viewer.on_presented(0, true, secs(0)), None);
    assert!(viewer.on_decode_failure(1, secs(1)).is_some());
    assert!(viewer.on_decode_failure(1, secs(1)).is_none());
    assert!(viewer.on_decode_failure(1, secs(2)).is_some());
    assert_eq!(decodes(&mut viewer, &picture(1, false, vec![1]), 2), None);
}

#[test]
fn unnegotiated_messages_are_refused() {
    let mut viewer = ViewerStream::new(NONE, RateProfile::balanced(), secs(0));
    let cursor = WireMessage::Cursor {
        sequence: 0,
        visible: true,
        x: 0,
        y: 0,
        shape: None,
    };
    assert_eq!(
        description(viewer.on_message(&cursor, secs(0), 0)),
        "codec error: Host sent an unnegotiated cursor update"
    );
    let update = WireMessage::DesktopUpdate {
        sequence: 0,
        timestamp_millis: 0,
        desktop_width: 1,
        desktop_height: 1,
        encoding: 0,
        regions: vec![],
        data: vec![],
    };
    assert_eq!(
        description(viewer.on_message(&update, secs(0), 0)),
        "codec error: Host sent an unnegotiated desktop region update"
    );
}

#[test]
fn a_static_desktop_is_not_congestion() {
    let mut viewer = ViewerStream::new(ALL, RateProfile::balanced(), secs(0));
    assert!(viewer.watch(secs(100), 0).is_none());
    assert!(viewer.watch(secs(1), 5).is_none());
    let (hint, request) = viewer.watch(secs(2), 5).unwrap();
    assert_eq!(
        hint,
        WireMessage::RateHint {
            bitrate: 666_666,
            frames_per_second: 8
        }
    );
    assert_eq!(request, WireMessage::KeyframeRequest { last_sequence: 0 });
    assert_eq!(viewer.rate_hint(), hint);
}

#[test]
fn stable_streams_get_higher_rates() {
    let mut viewer = ViewerStream::new(NONE, RateProfile::balanced(), secs(0));
    for sequence in 1..=8 {
        assert!(viewer.upgrade(secs(9)).is_none());
        viewer.on_presented(sequence, false, secs(0));
    }
    assert!(viewer.upgrade(secs(4)).is_none());
    assert_eq!(
        viewer.upgrade(secs(5)),
        Some(WireMessage::RateHint {
            bitrate: 1_333_334,
            frames_per_second: 13
        })
    );
    assert!(viewer.upgrade(secs(60)).is_none());
}

#[test]
fn lanes_put_messages_together() {
    let message = picture(1, false, [&[0, 0, 1, 0x41][..], &[7; 900]].concat());
    let datagrams = packetize_h264_nal_message(&message, 300).unwrap();
    let mut lanes = DatagramLanes::new(ALL);
    for datagram in &datagrams[1..] {
        assert!(matches!(
            lanes.receive(secs(0), datagram),
            LaneOutcome::Pending
        ));
    }
    assert!(matches!(
        lanes.receive(secs(0), &datagrams[0]),
        LaneOutcome::Complete { wait: false, .. }
    ));
    assert!(matches!(lanes.receive(secs(0), b"?"), LaneOutcome::Unknown));
    let mut plain = DatagramLanes::new(NONE);
    assert!(matches!(
        plain.receive(secs(0), &datagrams[0]),
        LaneOutcome::NotNegotiated
    ));
    let mut damaged = datagrams[0].clone();
    damaged.truncate(8);
    assert!(matches!(
        lanes.receive(secs(0), &damaged),
        LaneOutcome::Rejected(_) | LaneOutcome::Unknown
    ));
}

#[test]
fn the_reliable_lane_takes_keyframes_only() {
    assert!(accept_reliable(picture(1, true, vec![1])).is_ok());
    assert_eq!(
        accept_reliable(picture(1, false, vec![1])).unwrap_err(),
        "reliable media stream received a non-keyframe"
    );
}

#[test]
fn one_pointer_is_sent_last() {
    let pointer = |x: i32| InputEvent::Pointer {
        x,
        y: 0,
        buttons: 0,
    };
    let key = InputEvent::Key {
        key: KeyboardKey::A,
        pressed: true,
    };
    let outgoing = plan_input(&[pointer(1), key, pointer(2)], 10, 10);
    assert_eq!(
        outgoing.messages,
        vec![WireMessage::Input(key), WireMessage::Input(pointer(2))]
    );
    assert!(outgoing.failure.is_none());
    let outgoing = plan_input(&[pointer(10), key], 10, 10);
    assert_eq!(outgoing.messages, vec![WireMessage::Input(key)]);
    assert!(outgoing.failure.is_some());
}

#[test]
fn sessions_need_permission_and_datagrams() {
    assert!(check_view_permission(Permissions::desktop_viewer()).is_ok());
    assert_eq!(
        description(check_view_permission(Permissions::empty())),
        "unsupported: desktop viewing is not permitted"
    );
    assert_eq!(check_datagram_support(Some(1_200)).unwrap(), 1_200);
    assert_eq!(
        description(check_datagram_support(None)),
        "unsupported: peer does not support QUIC DATAGRAM video; update the Host and reconnect"
    );
}

fn parsed(arguments: &[&str]) -> Result<(Command, bool, bool, bool), DcError> {
    let arguments: Vec<String> = arguments.iter().map(|text| text.to_string()).collect();
    let invocation = parse_arguments(&arguments)?;
    Ok((
        invocation.command,
        invocation.ultra_low,
        invocation.use_x264,
        invocation.show_dirty_regions,
    ))
}

#[test]
fn arguments_are_read() {
    assert!(matches!(
        parsed(&[]).unwrap(),
        (Command::Banner, false, false, false)
    ));
    assert!(matches!(
        parsed(&["--ultra-low", "--x264", "--show-dirty-regions", "--loopback", "7"]).unwrap(),
        (Command::Loopback { frame_count: 7 }, true, true, true)
    ));
    let (Command::Host { address, password }, ..) = parsed(&["--host", "secret"]).unwrap() else {
        panic!("a host is expected");
    };
    assert_eq!((address.as_str(), password.as_str()), ("0.0.0.0:22100", "secret"));
    let (
        Command::Connect {
            address,
            password,
            fingerprint,
        },
        ..,
    ) = parsed(&["--connect", "a:1", "secret", "ab"]).unwrap()
    else {
        panic!("a viewer is expected");
    };
    assert_eq!((address.as_str(), password.as_str()), ("a:1", "secret"));
    assert_eq!(fingerprint.as_deref(), Some("ab"));
    let message = |arguments: &[&str]| description(parsed(arguments));
    assert_eq!(
        message(&["--loopback", "many"]),
        "invalid input: invalid loopback frame count: many"
    );
    assert_eq!(
        message(&["--capture-test", "0"]),
        "invalid input: capture frame count must be non-zero"
    );
    assert_eq!(
        message(&["--preview", "4294967296"]),
        "invalid input: invalid display index: 4294967296"
    );
    assert_eq!(
        message(&["--host"]),
        "invalid input: --host requires a password"
    );
    assert_eq!(
        message(&["--connect"]),
        "invalid input: --connect requires an address"
    );
    assert_eq!(
        message(&["--connect", "a:1"]),
        "invalid input: --connect requires a password"
    );
    assert_eq!(
        message(&["--window-test", "1", "2"]),
        format!("invalid input: {}", usage())
    );
    assert_eq!(
        message(&["--nonsense"]),
        format!("invalid input: unknown argument --nonsense; {}", usage())
    );
}

#[test]
fn messages_that_are_missing_are_counted() {
    let mut viewer = ViewerStream::new(ALL, RateProfile::balanced(), secs(0));
    viewer
        .on_message(&picture(5, true, vec![1]), secs(0), 3)
        .unwrap();
    assert_eq!(viewer.take_lost(), 0);
    viewer.on_presented(5, true, secs(0));
    viewer
        .on_message(&picture(6, false, vec![1]), secs(0), 3)
        .unwrap();
    viewer.on_presented(6, false, secs(0));
    viewer
        .on_message(&picture(9, true, vec![1]), secs(0), 3)
        .unwrap();
    viewer
        .on_message(&picture(6, true, vec![1]), secs(0), 4)
        .unwrap();
    assert_eq!(viewer.incomplete_datagrams(10), 6);
    assert_eq!(viewer.incomplete_datagrams(1), 0);
    assert_eq!(viewer.take_lost(), 2);
    assert_eq!(viewer.take_lost(), 0);
}

#[test]
fn profiles_without_order_are_put_in_order() {
    let odd = RateProfile {
        initial_bitrate: 9_000_000,
        initial_fps: 0,
        min_bitrate: 5_000_000,
        min_fps: 0,
        max_bitrate: 2_000_000,
        max_fps: 0,
        ..RateProfile::balanced()
    };
    let mut control = StreamControl::new(odd);
    assert_eq!(control.target_bitrate(), 2_000_000);
    assert_eq!(control.target_fps(), 1);
    control.update_rate(1, 9);
    assert_eq!((control.target_bitrate(), control.target_fps()), (2_000_000, 1));
    assert_eq!(
        ViewerStream::new(NONE, odd, secs(0)).rate_hint(),
        WireMessage::RateHint {
            bitrate: 2_000_000,
            frames_per_second: 1
        }
    );
    let settled = RateProfile::balanced().settle();
    assert_eq!(settled.initial_bitrate, 1_000_000);
    assert_eq!(settled.min_fps, 6);
}

#[test]
fn only_an_encoder_that_goes_on_owes_no_full_frame() {
    assert!(!EncoderAction::Keep.owes_full_frame());
    assert!(EncoderAction::ForceKeyframe.owes_full_frame());
    let recreated = EncoderAction::Recreate { bitrate: 1, fps: 1 };
    assert!(recreated.owes_full_frame());
}
