use direct_computing::protocol::{
    validate_version, Capabilities, CursorShape, DesktopRect, Hello, InputEvent, KeyboardKey,
    ProtocolVersion, WireMessage, MAX_DESKTOP_REGIONS, MAX_MESSAGE_SIZE,
};

#[test]
fn compatible_versions_share_a_major_version() {
    assert!(ProtocolVersion::current().compatible_with(ProtocolVersion {
        major: ProtocolVersion::current().major,
        minor: 99
    }));
    assert!(!ProtocolVersion::current().compatible_with(ProtocolVersion {
        major: ProtocolVersion::current().major + 1,
        minor: 0
    }));
}

#[test]
fn wire_messages_round_trip_with_binary_framing() {
    let message = WireMessage::Video {
        codec: 1,
        sequence: 42,
        timestamp_millis: 900,
        keyframe: true,
        width: 640,
        height: 480,
        pixel_format: 2,
        stride: 2560,
        data: vec![1, 2, 3, 4],
    };
    let encoded = message.encode().unwrap();
    assert_eq!(WireMessage::decode(&encoded).unwrap(), message);
}

#[test]
fn wire_messages_reject_trailing_data() {
    let mut encoded = WireMessage::Close.encode().unwrap();
    encoded.push(0);
    assert!(WireMessage::decode(&encoded).is_err());
}

#[test]
fn keyframe_requests_round_trip() {
    let message = WireMessage::KeyframeRequest { last_sequence: 99 };
    assert_eq!(
        WireMessage::decode(&message.encode().unwrap()).unwrap(),
        message
    );
}

#[test]
fn keyframe_acknowledgements_round_trip() {
    let message = WireMessage::KeyframeAck { sequence: 101 };
    assert_eq!(
        WireMessage::decode(&message.encode().unwrap()).unwrap(),
        message
    );
}

#[test]
fn file_messages_round_trip_with_checksums() {
    let message = WireMessage::FileChunk {
        transfer_id: [7; 16],
        offset: 256,
        data: vec![1, 2, 3],
        sha256: [9; 32],
    };
    assert_eq!(
        WireMessage::decode(&message.encode().unwrap()).unwrap(),
        message
    );
}

#[test]
fn capability_round_trip_preserves_control_permission() {
    let message = WireMessage::Authenticated {
        permissions: Capabilities {
            desktop: true,
            control_input: true,
            hybrid_video: true,
            desktop_optimizations: true,
            h264_nal_datagrams: true,
            ..Capabilities::default()
        },
    };
    assert_eq!(
        WireMessage::decode(&message.encode().unwrap()).unwrap(),
        message
    );
}

#[test]
fn desktop_update_and_cursor_round_trip() {
    let update = WireMessage::DesktopUpdate {
        sequence: 8,
        timestamp_millis: 50,
        desktop_width: 1920,
        desktop_height: 1080,
        encoding: 1,
        regions: vec![DesktopRect {
            x: 10,
            y: 20,
            width: 30,
            height: 40,
        }],
        data: vec![1, 2, 3],
    };
    assert_eq!(
        WireMessage::decode(&update.encode().unwrap()).unwrap(),
        update
    );

    let cursor = WireMessage::Cursor {
        sequence: 9,
        visible: true,
        x: 100,
        y: 200,
        shape: Some(CursorShape {
            kind: 2,
            width: 2,
            height: 2,
            hotspot_x: 1,
            hotspot_y: 1,
            pitch: 8,
            data: vec![0xff; 16],
        }),
    };
    assert_eq!(
        WireMessage::decode(&cursor.encode().unwrap()).unwrap(),
        cursor
    );
}

#[test]
fn keyboard_and_wheel_input_round_trip() {
    for event in [
        InputEvent::Key {
            key: KeyboardKey::RightControl,
            pressed: true,
        },
        InputEvent::Key {
            key: KeyboardKey::NumpadEnter,
            pressed: false,
        },
        InputEvent::Wheel {
            delta_x: -120,
            delta_y: 240,
        },
    ] {
        let message = WireMessage::Input(event);
        assert_eq!(
            WireMessage::decode(&message.encode().unwrap()).unwrap(),
            message
        );
    }
}

#[test]
fn rejects_unknown_keyboard_codes() {
    let mut encoded = WireMessage::Input(InputEvent::Key {
        key: KeyboardKey::A,
        pressed: true,
    })
    .encode()
    .unwrap();
    encoded[2..4].copy_from_slice(&u16::MAX.to_be_bytes());
    assert!(WireMessage::decode(&encoded).is_err());
}

fn decode_error(bytes: &[u8]) -> String {
    WireMessage::decode(bytes).unwrap_err().description()
}

#[test]
fn every_kind_of_message_reads_back() {
    let capabilities = Capabilities {
        desktop: true,
        control_input: false,
        terminal: true,
        command_execution: false,
        file_transfer: true,
        clipboard: false,
        ssh_compatibility: true,
        hybrid_video: false,
        desktop_optimizations: true,
        h264_nal_datagrams: false,
    };
    let messages = vec![
        WireMessage::Hello(Hello {
            protocol_version: ProtocolVersion::current(),
            capabilities,
        }),
        WireMessage::Challenge {
            nonce: [1; 32],
            salt: "s\u{e4}lt".to_owned(),
        },
        WireMessage::Authenticate { proof: [2; 32] },
        WireMessage::Authenticated {
            permissions: capabilities,
        },
        WireMessage::Rejected {
            reason: String::new(),
        },
        WireMessage::Input(InputEvent::Pointer {
            x: i32::MIN,
            y: -1,
            buttons: 7,
        }),
        WireMessage::RateHint {
            bitrate: u32::MAX,
            frames_per_second: 1,
        },
        WireMessage::KeyframeRequest {
            last_sequence: u64::MAX,
        },
        WireMessage::KeyframeAck { sequence: 3 },
        WireMessage::FileAck {
            transfer_id: [9; 16],
            next_offset: 4,
        },
        WireMessage::Close,
    ];
    let mut encodings = Vec::new();
    for message in messages {
        let encoded = message.encode().unwrap();
        assert_eq!(WireMessage::decode(&encoded).unwrap(), message);
        assert_eq!(
            WireMessage::decode(&encoded).unwrap().encode().unwrap(),
            encoded
        );
        assert!(!encodings.contains(&encoded));
        encodings.push(encoded);
    }
}

#[test]
fn faulty_messages_are_refused() {
    assert_eq!(
        decode_error(&[]),
        "codec error: invalid protocol message length"
    );
    assert_eq!(
        decode_error(&[0xee]),
        "codec error: unknown protocol message type 238"
    );
    let mut close = WireMessage::Close.encode().unwrap();
    close.push(0);
    assert_eq!(
        decode_error(&close),
        "codec error: trailing bytes in protocol message"
    );
    let hint = WireMessage::RateHint {
        bitrate: 1,
        frames_per_second: 1,
    };
    let bytes = hint.encode().unwrap();
    for length in 0..bytes.len() {
        assert!(WireMessage::decode(&bytes[..length]).is_err());
    }
}

#[test]
fn messages_that_are_too_large_are_not_encoded() {
    let video = |length: usize| WireMessage::Video {
        codec: 1,
        sequence: 0,
        timestamp_millis: 0,
        keyframe: true,
        width: 1,
        height: 1,
        pixel_format: 1,
        stride: 4,
        data: vec![0; length],
    };
    assert_eq!(
        video(MAX_MESSAGE_SIZE as usize).encode().unwrap_err().description(),
        "invalid input: protocol message exceeds size limit"
    );
    let update = WireMessage::DesktopUpdate {
        sequence: 0,
        timestamp_millis: 0,
        desktop_width: 1,
        desktop_height: 1,
        encoding: 0,
        regions: vec![
            DesktopRect {
                x: 0,
                y: 0,
                width: 1,
                height: 1
            };
            MAX_DESKTOP_REGIONS as usize + 1
        ],
        data: vec![],
    };
    assert_eq!(
        update.encode().unwrap_err().description(),
        "invalid input: desktop update has an invalid region count"
    );
}

#[test]
fn keyboard_codes_read_back() {
    for code in 0..=u16::MAX {
        if let Ok(key) = KeyboardKey::from_wire(code) {
            assert_eq!(key.wire_code(), code);
        }
    }
    assert_eq!(
        KeyboardKey::from_wire(KeyboardKey::RightSuper.wire_code()).unwrap(),
        KeyboardKey::RightSuper
    );
}

#[test]
fn other_major_versions_are_refused() {
    let current = ProtocolVersion::current();
    assert!(validate_version(current).is_ok());
    assert!(validate_version(ProtocolVersion {
        major: current.major + 1,
        minor: current.minor,
    })
    .is_err());
}

#[test]
fn no_message_begins_another() {
    let messages = vec![
        WireMessage::Challenge {
            nonce: [1; 32],
            salt: "salt".to_owned(),
        },
        WireMessage::Rejected {
            reason: "no".to_owned(),
        },
        WireMessage::Input(InputEvent::Wheel {
            delta_x: -1,
            delta_y: 120,
        }),
        WireMessage::Close,
    ];
    for message in messages {
        let bytes = message.encode().unwrap();
        for length in 0..bytes.len() {
            assert!(WireMessage::decode(&bytes[..length]).is_err());
        }
        for trailing in [0, 1, 0xff] {
            let longer = [&bytes[..], &[trailing]].concat();
            assert!(WireMessage::decode(&longer).is_err());
        }
    }
}
