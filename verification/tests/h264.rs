use direct_computing::desktop::{
    message_to_packet, packet_to_message, packetize_video_message, VideoDatagramReassembler,
};
use direct_computing::error::DcError;
use direct_computing::media::{
    split_h264_nal_units, EncodeOutcome, FrameSize, FrameSource, OpenH264Decoder, OpenH264Encoder,
    PixelFormat, SyntheticFrameSource, VideoCodec, VideoDecoder,
};

#[test]
fn h264_round_trip_preserves_frame_metadata() {
    let size = FrameSize::new(64, 48).unwrap();
    let mut source = SyntheticFrameSource::new(size, 30).unwrap();
    let frame = source.capture().unwrap();
    let source_len = frame.data().len();
    let mut encoder = OpenH264Encoder::new(500_000, 30).unwrap();
    let EncodeOutcome::Packet(packet) = encoder.encode(frame).unwrap() else {
        panic!("the first encoded frame must not be skipped");
    };

    assert_eq!(packet.codec(), VideoCodec::H264);
    assert!(packet.is_keyframe());
    assert!(packet.data().len() < source_len);

    let mut decoder = OpenH264Decoder::new().unwrap();
    let decoded = decoder.decode(packet).unwrap();
    assert_eq!(decoded.sequence(), 0);
    assert_eq!(decoded.layout().size(), size);
    assert_eq!(decoded.layout().pixel_format(), PixelFormat::Rgb24);
}

#[test]
fn h264_rejects_odd_dimensions_without_panicking() {
    let size = FrameSize::new(3, 3).unwrap();
    let mut source = SyntheticFrameSource::new(size, 30).unwrap();
    let frame = source.capture().unwrap();
    let mut encoder = OpenH264Encoder::new(500_000, 30).unwrap();
    assert!(encoder.encode(frame).is_err());
}

#[test]
fn h264_rejects_invalid_encoder_settings() {
    assert!(OpenH264Encoder::new(0, 30).is_err());
    assert!(OpenH264Encoder::new(500_000, 0).is_err());
}

#[test]
fn openh264_reports_software_low_latency_capabilities() {
    let encoder = OpenH264Encoder::new(500_000, 30).unwrap();
    let capabilities = encoder.capabilities();
    assert_eq!(capabilities.backend, "openh264");
    assert!(!capabilities.hardware_accelerated);
    assert!(!capabilities.zero_copy_input);
    assert!(capabilities.low_latency);
}

#[test]
fn openh264_decoder_reports_software_capabilities() {
    let decoder = OpenH264Decoder::new().unwrap();
    let capabilities = decoder.capabilities();
    assert_eq!(capabilities.backend, "openh264");
    assert_eq!(capabilities.codec, VideoCodec::H264);
    assert!(!capabilities.hardware_accelerated);
    assert!(!capabilities.zero_copy_output);
    assert!(capabilities.low_latency);
}

#[test]
fn openh264_network_encoder_bounds_video_slice_nals() {
    let size = FrameSize::new(640, 360).unwrap();
    let mut source = SyntheticFrameSource::new(size, 30).unwrap();
    let frame = source.capture().unwrap();
    let mut encoder = OpenH264Encoder::new_network(4_000_000, 30, 0, 900).unwrap();
    let EncodeOutcome::Packet(packet) = encoder.encode(frame).unwrap() else {
        panic!("the first network frame must not be skipped");
    };
    let video_nals: Vec<_> = split_h264_nal_units(packet.data())
        .unwrap()
        .into_iter()
        .filter(|nal| {
            nal.first()
                .is_some_and(|header| header & 0x1f == 1 || header & 0x1f == 5)
        })
        .collect();
    assert!(
        video_nals.len() > 1,
        "the frame should be split into multiple slices"
    );
    assert!(video_nals.iter().all(|nal| nal.len() <= 900));
}

#[test]
fn encoded_frame_survives_datagram_path_and_decodes() {
    let size = FrameSize::new(320, 180).unwrap();
    let mut source = SyntheticFrameSource::new(size, 30).unwrap();
    let frame = source.capture().unwrap();
    let mut encoder = OpenH264Encoder::new(1_000_000, 30).unwrap();
    let packet = match encoder.encode(frame).unwrap() {
        EncodeOutcome::Packet(packet) => packet,
        EncodeOutcome::Skipped => panic!("synthetic frame unexpectedly skipped"),
    };
    let message = packet_to_message(&packet).unwrap();
    let fragments = packetize_video_message(&message, 1_200).unwrap();
    let mut reassembler = VideoDatagramReassembler::new();
    let mut decoded_message = None;
    for fragment in fragments {
        decoded_message = reassembler.push(&fragment).unwrap().or(decoded_message);
    }
    let decoded_packet = message_to_packet(decoded_message.unwrap()).unwrap();
    let mut decoder = OpenH264Decoder::new().unwrap();
    let decoded = decoder.decode(decoded_packet).unwrap();
    assert_eq!(decoded.layout().size(), size);
    assert!(decoded.data().iter().any(|byte| *byte != 0));
}

#[test]
fn a_decoder_that_could_not_be_opened_is_a_codec_error() {
    assert!(matches!(
        OpenH264Decoder::from_opened(Err("out of memory".to_owned())),
        Err(DcError::Codec(text)) if text == "out of memory"
    ));
    assert!(OpenH264Decoder::from_opened(Ok(openh264::decoder::Decoder::new().unwrap())).is_ok());
}
