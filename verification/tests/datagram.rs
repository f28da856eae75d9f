use direct_computing::desktop::{
    classify_video_datagram, packetize_h264_nal_message, packetize_video_message,
    H264NalDatagramReassembler, VideoDatagramKind, VideoDatagramReassembler,
};
use direct_computing::protocol::{DesktopRect, WireMessage};
use direct_computing::time::Duration;

fn message(payload_len: usize) -> WireMessage {
    WireMessage::Video {
        codec: 1,
        sequence: 7,
        timestamp_millis: 42,
        keyframe: true,
        width: 640,
        height: 360,
        pixel_format: 1,
        stride: 2_560,
        data: vec![0x5a; payload_len],
    }
}

#[test]
fn packetizes_and_reassembles_out_of_order() {
    let fragments = packetize_video_message(&message(4_000), 600).unwrap();
    assert!(fragments.len() > 1);
    let mut reassembler = VideoDatagramReassembler::new();
    let mut result = None;
    for fragment in fragments.iter().rev() {
        result = reassembler.push(fragment).unwrap().or(result);
    }
    assert_eq!(result, Some(message(4_000)));
    assert_eq!(reassembler.stats().completed_frames, 1);
}

#[test]
fn incomplete_frame_is_not_delivered() {
    let fragments = packetize_video_message(&message(2_000), 500).unwrap();
    let mut reassembler = VideoDatagramReassembler::new();
    assert!(reassembler.push(&fragments[0]).unwrap().is_none());
    assert_eq!(reassembler.stats().completed_frames, 0);
}

#[test]
fn packetizes_h264_at_nal_boundaries_and_reassembles_out_of_order() {
    let message = WireMessage::Video {
        codec: 1,
        sequence: 9,
        timestamp_millis: 77,
        keyframe: false,
        width: 320,
        height: 180,
        pixel_format: 1,
        stride: 1_280,
        data: [
            &[0, 0, 0, 1, 0x41][..],
            &vec![0x11; 1_400],
            &[0, 0, 0, 1, 0x41][..],
            &vec![0x22; 900],
        ]
        .concat(),
    };
    let fragments = packetize_h264_nal_message(&message, 500).unwrap();
    assert!(fragments.len() > 2);
    assert!(fragments.iter().all(|fragment| fragment.len() <= 500));
    let mut reassembler = H264NalDatagramReassembler::new();
    let mut result = None;
    for fragment in fragments.iter().rev() {
        result = reassembler.push(fragment).unwrap().or(result);
    }
    assert_eq!(result, Some(message));
    assert_eq!(reassembler.stats().completed_frames, 1);
}

#[test]
fn classifies_nal_and_legacy_datagram_envelopes() {
    let h264 = WireMessage::Video {
        codec: 1,
        sequence: 12,
        timestamp_millis: 42,
        keyframe: false,
        width: 64,
        height: 48,
        pixel_format: 1,
        stride: 256,
        data: [&[0, 0, 0, 1, 0x41][..], &[0x5a; 32]].concat(),
    };
    let desktop_update = WireMessage::DesktopUpdate {
        sequence: 13,
        timestamp_millis: 43,
        desktop_width: 64,
        desktop_height: 48,
        encoding: 0,
        regions: vec![DesktopRect {
            x: 8,
            y: 8,
            width: 4,
            height: 4,
        }],
        data: vec![0x5a; 64],
    };
    let nal = packetize_h264_nal_message(&h264, 300).unwrap();
    let legacy = packetize_video_message(&desktop_update, 300).unwrap();

    assert_eq!(
        classify_video_datagram(&nal[0]),
        Some(VideoDatagramKind::H264Nal)
    );
    assert_eq!(
        classify_video_datagram(&legacy[0]),
        Some(VideoDatagramKind::Legacy)
    );
    assert_eq!(classify_video_datagram(b"bad"), None);
}

#[test]
fn incomplete_nal_does_not_block_a_later_frame() {
    let first = WireMessage::Video {
        codec: 1,
        sequence: 10,
        timestamp_millis: 1,
        keyframe: false,
        width: 64,
        height: 48,
        pixel_format: 1,
        stride: 256,
        data: [&[0, 0, 0, 1, 0x41][..], &vec![1; 1_000]].concat(),
    };
    let second = WireMessage::Video {
        codec: 1,
        sequence: 11,
        timestamp_millis: 2,
        keyframe: false,
        width: 64,
        height: 48,
        pixel_format: 1,
        stride: 256,
        data: [&[0, 0, 0, 1, 0x41][..], &[2; 100]].concat(),
    };
    let first_fragments = packetize_h264_nal_message(&first, 300).unwrap();
    let second_fragments = packetize_h264_nal_message(&second, 300).unwrap();
    let mut reassembler = H264NalDatagramReassembler::new();
    assert!(reassembler.push(&first_fragments[0]).unwrap().is_none());
    let mut result = None;
    for fragment in second_fragments {
        result = reassembler.push(&fragment).unwrap().or(result);
    }
    assert_eq!(result, Some(second));
}

fn numbered(sequence: u64, length: usize) -> WireMessage {
    match message(length) {
        WireMessage::Video {
            codec,
            timestamp_millis,
            width,
            height,
            pixel_format,
            stride,
            data,
            ..
        } => WireMessage::Video {
            codec,
            sequence,
            timestamp_millis,
            keyframe: false,
            width,
            height,
            pixel_format,
            stride,
            data,
        },
        other => other,
    }
}

#[test]
fn later_frames_push_older_ones_out() {
    let mut reassembler = VideoDatagramReassembler::new();
    let newest = packetize_video_message(&numbered(50, 100), 600).unwrap();
    assert!(reassembler.push(&newest[0]).unwrap().is_some());
    let older = packetize_video_message(&numbered(49, 100), 600).unwrap();
    assert!(reassembler.push(&older[0]).unwrap().is_none());
    assert_eq!(reassembler.stats().completed_frames, 1);
}

#[test]
fn repeated_fragments_complete_nothing() {
    let fragments = packetize_video_message(&numbered(1, 1_000), 600).unwrap();
    let mut reassembler = VideoDatagramReassembler::new();
    for _ in 0..3 {
        assert!(reassembler.push(&fragments[0]).unwrap().is_none());
    }
    assert!(reassembler.push(&fragments[1]).unwrap().is_some());
}

#[test]
fn frames_that_take_too_long_are_given_up() {
    let fragments = packetize_video_message(&numbered(1, 1_000), 600).unwrap();
    assert_eq!(fragments.len(), 2);
    let mut reassembler = VideoDatagramReassembler::new();
    let at = |secs: u64| Duration::from_secs(secs);
    assert!(reassembler.push_at(at(0), &fragments[0]).unwrap().is_none());
    let other = packetize_video_message(&numbered(2, 1_000), 600).unwrap();
    assert!(reassembler.push_at(at(60), &other[0]).unwrap().is_none());
    assert!(reassembler.push_at(at(60), &fragments[1]).unwrap().is_none());
    assert_eq!(reassembler.stats().completed_frames, 0);
}

#[test]
fn faulty_datagrams_are_refused() {
    let mut reassembler = VideoDatagramReassembler::new();
    assert_eq!(
        reassembler.push(b"short").unwrap_err().description(),
        "codec error: invalid video datagram header"
    );
    assert_eq!(
        packetize_video_message(&message(10), 3).unwrap_err().description(),
        "invalid input: QUIC datagram MTU is too small"
    );
    assert_eq!(
        packetize_video_message(&WireMessage::Close, 600)
            .unwrap_err()
            .description(),
        "invalid input: expected desktop media message"
    );
    let mut units = H264NalDatagramReassembler::new();
    assert_eq!(
        units.push(b"short").unwrap_err().description(),
        "codec error: invalid H.264 NAL datagram header"
    );
    assert_eq!(
        packetize_h264_nal_message(&WireMessage::Close, 600)
            .unwrap_err()
            .description(),
        "invalid input: NAL packetization requires an H.264 video message"
    );
    assert_eq!(
        packetize_h264_nal_message(&message(10), 3).unwrap_err().description(),
        "invalid input: QUIC datagram MTU is too small for NAL transport"
    );
}

#[test]
fn a_message_is_delivered_once_whatever_is_repeated() {
    let sent = message(2_000);
    let fragments = packetize_video_message(&sent, 600).unwrap();
    assert_eq!(fragments.len(), 4);
    let mut reassembler = VideoDatagramReassembler::new();
    let order = [3, 0, 3, 2, 0, 1, 1, 3, 0];
    for (step, index) in order.iter().enumerate() {
        let now = Duration::from_millis(500 * step as u64);
        let delivered = reassembler.push_at(now, &fragments[*index]).unwrap();
        if step == 5 {
            assert_eq!(delivered.as_ref(), Some(&sent));
        } else {
            assert!(delivered.is_none());
        }
    }
    let stats = reassembler.stats();
    assert_eq!(stats.completed_frames, 1);
    assert_eq!(stats.incomplete_frames, 0);
    assert_eq!(stats.malformed_fragments, 0);
}

fn access_unit(data: Vec<u8>) -> WireMessage {
    WireMessage::Video {
        codec: 1,
        sequence: 4,
        timestamp_millis: 8,
        keyframe: true,
        width: 64,
        height: 48,
        pixel_format: 1,
        stride: 256,
        data,
    }
}

#[test]
fn an_access_unit_is_delivered_once_as_a_byte_stream() {
    let large = vec![0x65; 700];
    let sent = access_unit([&[0, 0, 1, 0x67, 2, 0, 0, 1][..], &large].concat());
    let rebuilt = access_unit([&[0, 0, 0, 1, 0x67, 2, 0, 0, 0, 1][..], &large].concat());
    let fragments = packetize_h264_nal_message(&sent, 300).unwrap();
    assert_eq!(fragments.len(), 4);
    let mut reassembler = H264NalDatagramReassembler::new();
    for (step, index) in [2, 0, 3, 1, 1, 2].iter().enumerate() {
        let now = Duration::from_millis(500 * step as u64);
        let delivered = reassembler.push_at(now, &fragments[*index]).unwrap();
        if step == 3 {
            assert_eq!(delivered.as_ref(), Some(&rebuilt));
        } else {
            assert!(delivered.is_none());
        }
    }
    let stats = reassembler.stats();
    assert_eq!(stats.completed_frames, 1);
    assert_eq!(stats.incomplete_frames, 0);
    assert_eq!(stats.malformed_fragments, 0);
}
