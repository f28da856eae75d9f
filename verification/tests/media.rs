use direct_computing::logging::{log_line, LogLevel};
use direct_computing::command::CommandResult;
use direct_computing::error::DcError;
use direct_computing::session::SessionState;
use direct_computing::media::h264::{frame_of_picture, packet_of_picture, PictureKind};
use direct_computing::media::{
    bmp_bytes, h264_access_unit_is_keyframe, split_h264_nal_units, ChecksumSink, DamageRect, EncodeOutcome, EncodedVideoPacket, FrameLayout, FrameMetadata, FrameSink, FrameSize, FrameSource,
    LastFrameSink, LoopbackPipeline, OpenH264Decoder, OpenH264Encoder, PipelineStats, PixelFormat, RawVideoDecoder, RawVideoEncoder,
    SyntheticFrameSource, VideoCodec, VideoDecoder, VideoEncoder, VideoFrame,
};
use direct_computing::time::Duration;

#[test]
fn rejects_zero_sized_frames() {
    assert!(FrameSize::new(0, 10).is_err());
    assert!(FrameSize::new(10, 0).is_err());
}

#[test]
fn calculates_packed_layout() {
    let size = FrameSize::new(640, 480).unwrap();
    let layout = FrameLayout::packed(size, PixelFormat::Bgra32).unwrap();
    assert_eq!(layout.stride(), 2_560);
    assert_eq!(layout.data_len(), 1_228_800);
}

#[test]
fn rejects_an_invalid_buffer_length() {
    let size = FrameSize::new(2, 2).unwrap();
    let layout = FrameLayout::packed(size, PixelFormat::Rgb24).unwrap();
    let result = VideoFrame::new(0, Duration::zero(), layout, vec![0; 11]);
    assert!(result.is_err());
}

#[test]
fn splits_annex_b_without_including_the_next_start_code() {
    let bytes = [0, 0, 0, 1, 0x67, 1, 2, 0, 0, 1, 0x68, 3];
    assert_eq!(
        split_h264_nal_units(&bytes).unwrap(),
        vec![&bytes[4..7], &bytes[10..12]]
    );
}

#[test]
fn splits_four_byte_length_avcc() {
    let bytes = [0, 0, 0, 2, 0x67, 1, 0, 0, 0, 2, 0x68, 2];
    assert_eq!(
        split_h264_nal_units(&bytes).unwrap(),
        vec![&bytes[4..6], &bytes[10..12]]
    );
}

#[test]
fn rejects_truncated_avcc() {
    assert!(split_h264_nal_units(&[0, 0, 0, 4, 1]).is_err());
}

#[test]
fn last_frame_sink_keeps_only_the_latest_frame() {
    let size = FrameSize::new(2, 2).unwrap();
    let layout = FrameLayout::packed(size, PixelFormat::Rgb24).unwrap();
    let mut sink = LastFrameSink::default();
    sink.present(VideoFrame::new(4, Duration::zero(), layout, vec![1; 12]).unwrap())
        .unwrap();
    sink.present(VideoFrame::new(5, Duration::zero(), layout, vec![2; 12]).unwrap())
        .unwrap();
    assert_eq!(sink.frames_presented(), 2);
    assert_eq!(sink.last_frame().unwrap().sequence(), 5);
}

#[test]
fn writes_a_standard_bmp_header() {
    let size = FrameSize::new(2, 2).unwrap();
    let layout = FrameLayout::packed(size, PixelFormat::Rgb24).unwrap();
    let frame = VideoFrame::new(0, Duration::zero(), layout, vec![128; 12]).unwrap();
    let bytes = bmp_bytes(&frame).unwrap();

    assert_eq!(&bytes[..2], b"BM");
    assert_eq!(bytes.len(), 54 + 2 * 2 * 4);
    assert_eq!(u32::from_le_bytes(bytes[10..14].try_into().unwrap()), 54);
}

#[test]
fn stats_delta_subtracts_each_measurement() {
    let current = PipelineStats {
        frames_processed: 10,
        source_bytes: 500,
        encoded_bytes: 50,
        capture_time: Duration::from_millis(40),
        encode_time: Duration::from_millis(80),
        decode_time: Duration::from_millis(20),
        present_time: Duration::from_millis(10),
    };
    let earlier = PipelineStats {
        frames_processed: 4,
        source_bytes: 200,
        encoded_bytes: 20,
        capture_time: Duration::from_millis(10),
        encode_time: Duration::from_millis(30),
        decode_time: Duration::from_millis(5),
        present_time: Duration::from_millis(3),
    };
    let delta = current.delta_since(earlier);
    assert_eq!(delta.frames_processed, 6);
    assert_eq!(delta.source_bytes, 300);
    assert_eq!(delta.encoded_bytes, 30);
    assert_eq!(delta.capture_time, Duration::from_millis(30));
    assert_eq!(delta.encode_time, Duration::from_millis(50));
    assert_eq!(delta.decode_time, Duration::from_millis(15));
    assert_eq!(delta.present_time, Duration::from_millis(7));
}

#[test]
fn synthetic_frames_change_over_time() {
    let size = FrameSize::new(4, 3).unwrap();
    let mut source = SyntheticFrameSource::new(size, 30).unwrap();
    let first = source.capture().unwrap();
    let second = source.capture().unwrap();
    assert_eq!(first.sequence(), 0);
    assert_eq!(second.sequence(), 1);
    assert_ne!(first.data(), second.data());
    assert!(second.timestamp() > first.timestamp());
}

#[test]
fn synthetic_source_rejects_zero_frame_rate() {
    let size = FrameSize::new(4, 3).unwrap();
    assert!(SyntheticFrameSource::new(size, 0).is_err());
}

#[test]
fn loopback_delivers_every_frame_without_data_loss() {
    let size = FrameSize::new(8, 6).unwrap();
    let source = SyntheticFrameSource::new(size, 30).unwrap();
    let mut pipeline = LoopbackPipeline::new(
        source,
        RawVideoEncoder,
        RawVideoDecoder,
        ChecksumSink::default(),
    );

    let stats = pipeline.run_frames(3).unwrap();
    assert_eq!(stats.frames_processed, 3);
    assert_eq!(stats.source_bytes, 8 * 6 * 4 * 3);
    assert_eq!(stats.encoded_bytes, stats.source_bytes);
    assert_eq!(pipeline.sink().frames_presented(), 3);
    assert_eq!(pipeline.sink().last_sequence(), Some(2));
    assert!(pipeline.sink().last_checksum().is_some());
}

fn small_frame(sequence: u64, data: Vec<u8>) -> VideoFrame {
    let size = FrameSize::new(2, 2).unwrap();
    let layout = FrameLayout::packed(size, PixelFormat::Bgra32).unwrap();
    VideoFrame::new(sequence, Duration::from_millis(5), layout, data).unwrap()
}

#[test]
fn layouts_that_do_not_fit_are_refused() {
    let size = FrameSize::new(4, 4).unwrap();
    assert_eq!(
        FrameLayout::with_stride(size, PixelFormat::Rgb24, 11)
            .unwrap_err()
            .description(),
        "invalid input: frame stride 11 is smaller than packed row size 12"
    );
    assert_eq!(
        FrameLayout::packed(size, PixelFormat::I420)
            .unwrap_err()
            .description(),
        "unsupported: I420 requires explicit plane layout support"
    );
    assert_eq!(
        FrameLayout::with_stride(size, PixelFormat::Rgb24, usize::MAX)
            .unwrap_err()
            .description(),
        "invalid input: frame buffer size overflows usize"
    );
    let layout = FrameLayout::with_stride(size, PixelFormat::Rgb24, 16).unwrap();
    assert_eq!(layout.data_len(), 64);
}

#[test]
fn damage_has_to_lie_inside_the_frame() {
    let with_damage = |x: u32, width: u32| {
        small_frame(0, vec![0; 16]).with_metadata(FrameMetadata {
            damage: Some(vec![DamageRect {
                x,
                y: 0,
                width,
                height: 2,
            }]),
            cursor: None,
        })
    };
    assert!(with_damage(1, 1).is_ok());
    for (x, width) in [(1, 2), (0, 0), (u32::MAX, 2)] {
        assert_eq!(
            with_damage(x, width).unwrap_err().description(),
            "invalid input: damage rectangle is outside the frame"
        );
    }
}

#[test]
fn raw_coding_is_lossless() {
    let data: Vec<u8> = (0..16).collect();
    let mut encoder = RawVideoEncoder::default();
    let packet = VideoEncoder::encode(&mut encoder, small_frame(3, data.clone())).unwrap();
    assert_eq!(packet.codec(), VideoCodec::Raw);
    let mut decoder = RawVideoDecoder::default();
    let frame = decoder.decode(packet).unwrap();
    assert_eq!((frame.sequence(), frame.data()), (3, &data[..]));
    let foreign = EncodedVideoPacket::new(
        VideoCodec::H264,
        0,
        Duration::zero(),
        true,
        frame.layout(),
        vec![1],
    )
    .unwrap();
    assert_eq!(
        decoder.decode(foreign).unwrap_err().description(),
        "invalid input: raw decoder received H264 data"
    );
}

#[test]
fn empty_packets_are_refused() {
    let layout = small_frame(0, vec![0; 16]).layout();
    assert_eq!(
        EncodedVideoPacket::new(
            VideoCodec::H264,
            0,
            Duration::zero(),
            true,
            layout,
            vec![]
        )
        .unwrap_err()
        .description(),
        "invalid input: encoded video packet cannot be empty"
    );
}

#[test]
fn keyframes_are_found_among_the_units() {
    assert!(h264_access_unit_is_keyframe(&[0, 0, 1, 0x67, 0, 0, 1, 0x65]).unwrap());
    assert!(!h264_access_unit_is_keyframe(&[0, 0, 1, 0x41]).unwrap());
    assert!(h264_access_unit_is_keyframe(&[0, 0, 0, 9, 1]).is_err());
}

#[test]
fn pictures_become_packets_and_frames() {
    let frame = small_frame(7, vec![0; 16]);
    let outcome = |kind: PictureKind, data: Vec<u8>| {
        match packet_of_picture(&frame, Ok((kind, data))).unwrap() {
            EncodeOutcome::Packet(packet) => Some((packet.sequence(), packet.is_keyframe())),
            EncodeOutcome::Skipped => None,
        }
    };
    assert_eq!(outcome(PictureKind::Idr, vec![1]), Some((7, true)));
    assert_eq!(outcome(PictureKind::I, vec![1]), Some((7, true)));
    assert_eq!(outcome(PictureKind::P, vec![1]), Some((7, false)));
    assert_eq!(outcome(PictureKind::Skip, vec![1]), None);
    assert_eq!(outcome(PictureKind::P, vec![]), None);
    assert_eq!(
        packet_of_picture(&frame, Err("broken".to_owned()))
            .unwrap_err()
            .description(),
        "codec error: broken"
    );
    assert_eq!(
        frame_of_picture(1, Duration::zero(), Ok(None))
            .unwrap_err()
            .description(),
        "codec error: decoder produced no frame"
    );
}

#[test]
fn the_encoder_makes_keyframes_on_request() {
    let size = FrameSize::new(64, 48).unwrap();
    let mut source = SyntheticFrameSource::new(size, 30).unwrap();
    let mut encoder = OpenH264Encoder::new_low_quality(200_000, 30, 36).unwrap();
    let mut keyframe = || match encoder.encode(source.capture().unwrap()).unwrap() {
        EncodeOutcome::Packet(packet) => packet.is_keyframe(),
        EncodeOutcome::Skipped => false,
    };
    assert!(keyframe());
    assert!(!keyframe());
    encoder.force_keyframe().unwrap();
    let packet = match encoder.encode(source.capture().unwrap()).unwrap() {
        EncodeOutcome::Packet(packet) => packet,
        EncodeOutcome::Skipped => panic!("a keyframe is expected"),
    };
    assert!(packet.is_keyframe());
    let settings = encoder.settings();
    assert_eq!(settings.target_bitrate, 200_000);
    let mut decoder = OpenH264Decoder::new().unwrap();
    let decoded = decoder.decode(packet.clone()).unwrap();
    assert_eq!(decoded.sequence(), packet.sequence());
    assert!(decoder
        .decode(EncodedVideoPacket::from_raw_frame(small_frame(0, vec![0; 16])).unwrap())
        .is_err());
}

#[test]
fn faulty_encoder_settings_are_named() {
    let message = |bitrate: u32, fps: u16, slice: u32| {
        match OpenH264Encoder::new_network(bitrate, fps, 0, slice) {
            Ok(_) => panic!("the settings are faulty"),
            Err(error) => error.description(),
        }
    };
    assert_eq!(
        message(0, 30, 900),
        "invalid input: H.264 target bitrate must be non-zero"
    );
    assert_eq!(
        message(1, 0, 900),
        "invalid input: H.264 frame rate must be finite and greater than zero"
    );
    assert_eq!(
        message(1, 1, 255),
        "invalid input: H.264 maximum slice length must be at least 256 bytes"
    );
}

#[test]
fn log_lines_have_one_layout() {
    assert_eq!(
        log_line(12, LogLevel::Warn, "dc", "careful"),
        "12 WARN dc: careful"
    );
    assert!(LogLevel::Error < LogLevel::Trace);
}

#[test]
fn plain_results_start_empty() {
    let result = CommandResult::default();
    assert!(result.stdout.is_empty() && result.stderr.is_empty());
    assert_eq!((result.exit_code, result.timed_out), (None, false));
    assert_ne!(SessionState::Created, SessionState::Closed);
}

#[test]
fn frame_intervals_are_those_of_double_precision() {
    let size = FrameSize::new(2, 2).unwrap();
    for rate in [
        1_u32, 3, 7, 12, 30, 60, 1_024, 5_120, 25_600, 128_000, 640_000, 3_200_000, 16_000_000,
        80_000_000, 400_000_000, 2_000_000_000, 1_999_999_999, u32::MAX,
    ] {
        let mut source = SyntheticFrameSource::new(size, rate).unwrap();
        source.capture().unwrap();
        let second = source.capture().unwrap();
        assert_eq!(
            second.timestamp().nanos,
            std::time::Duration::from_secs_f64(1.0 / f64::from(rate)).as_nanos()
        );
    }
}

#[test]
fn start_codes_of_both_lengths_may_be_mixed() {
    let bytes = [
        0, 0, 1, 0x67, 1, 0, 0, 0, 1, 0x68, 0, 2, 0, 0, 1, 0x65, 0, 0, 3,
    ];
    assert_eq!(
        split_h264_nal_units(&bytes).unwrap(),
        vec![&bytes[3..5], &bytes[9..12], &bytes[15..19]]
    );
}

#[test]
fn lists_cut_inside_a_unit_are_refused() {
    let bytes = [0, 0, 0, 2, 0x67, 1, 0, 0, 0, 3, 0x68, 2, 4];
    for length in 0..=bytes.len() {
        let units = split_h264_nal_units(&bytes[..length]);
        match length {
            0 => assert!(units.unwrap().is_empty()),
            6 => assert_eq!(units.unwrap(), vec![&bytes[4..6]]),
            13 => assert_eq!(units.unwrap(), vec![&bytes[4..6], &bytes[10..13]]),
            _ => assert!(units.is_err()),
        }
    }
}

fn list_of(units: &[Vec<u8>]) -> Vec<u8> {
    let mut bytes = Vec::new();
    for unit in units {
        bytes.extend_from_slice(&(unit.len() as u32).to_be_bytes());
        bytes.extend_from_slice(unit);
    }
    bytes
}

#[test]
fn lengths_that_look_like_start_codes_are_lengths() {
    let bytes = [&[0, 0, 1, 0][..], &[0x41; 256]].concat();
    assert_eq!(split_h264_nal_units(&bytes).unwrap(), vec![&bytes[4..260]]);

    let bytes = [&[0, 0, 0, 2, 0x67, 1, 0, 0, 1, 0][..], &[0x65; 256]].concat();
    assert_eq!(
        split_h264_nal_units(&bytes).unwrap(),
        vec![&bytes[4..6], &bytes[10..266]]
    );
    assert!(h264_access_unit_is_keyframe(&bytes).unwrap());

    for length in [255, 256, 288, 300, 511, 512] {
        let units = vec![vec![0x67, 1], vec![0x41; length], vec![0, 0, 1, 5]];
        let bytes = list_of(&units);
        assert_eq!(split_h264_nal_units(&bytes).unwrap(), units);
    }
}

#[test]
fn buffers_that_begin_with_a_start_code_are_streams() {
    let bytes = [0, 0, 0, 0, 1, 0x67, 7, 0, 0, 1, 0x65];
    assert_eq!(
        split_h264_nal_units(&bytes).unwrap(),
        vec![&bytes[5..7], &bytes[10..11]]
    );
    let mut listed = [&[0, 0, 1, 1][..], &[0x41; 257]].concat();
    assert_eq!(split_h264_nal_units(&listed).unwrap(), vec![&listed[3..]]);
    listed.truncate(100);
    assert_eq!(split_h264_nal_units(&listed).unwrap(), vec![&listed[3..]]);
    let cut = [&[0, 0, 1, 0][..], &[0x41; 255]].concat();
    assert_eq!(split_h264_nal_units(&cut).unwrap(), vec![&cut[3..]]);
}

/// An encoder that leaves every second frame out.
struct Alternating {
    raw: RawVideoEncoder,
    calls: u32,
}

impl VideoEncoder for Alternating {
    fn declared_codec(&self) -> VideoCodec {
        VideoCodec::Raw
    }

    fn encodes(
        &self,
        _: &Self,
        _: VideoFrame,
        _: Result<EncodedVideoPacket, DcError>,
    ) -> bool {
        true
    }

    fn codec(&self) -> VideoCodec {
        self.raw.codec()
    }

    fn encode(&mut self, frame: VideoFrame) -> Result<EncodedVideoPacket, DcError> {
        self.calls += 1;
        if self.calls % 2 == 0 {
            return Err(DcError::Timeout("encoder skipped the frame".to_owned()));
        }
        self.raw.encode(frame)
    }
}

#[test]
fn skipped_frames_are_counted_and_end_nothing() {
    let size = FrameSize::new(4, 4).unwrap();
    let mut pipeline = LoopbackPipeline::new(
        SyntheticFrameSource::new(size, 30).unwrap(),
        Alternating {
            raw: RawVideoEncoder,
            calls: 0,
        },
        RawVideoDecoder,
        ChecksumSink::default(),
    );
    assert_eq!(pipeline.frames_skipped(), 0);
    assert_eq!(pipeline.process_next_frame().unwrap().frames_processed, 1);
    assert_eq!(pipeline.process_next_frame().unwrap().frames_processed, 1);
    assert_eq!(pipeline.frames_skipped(), 1);
    assert_eq!(pipeline.sink().last_sequence(), Some(0));
    let stats = pipeline.run_frames(5).unwrap();
    assert_eq!(stats.frames_processed, 4);
    assert_eq!(pipeline.frames_skipped(), 3);
    assert_eq!(stats.source_bytes, stats.encoded_bytes);
}

#[test]
fn an_outcome_is_a_packet_a_skip_or_a_failure() {
    let mut encoder = Alternating {
        raw: RawVideoEncoder,
        calls: 0,
    };
    assert!(matches!(
        encoder.encode_outcome(small_frame(0, vec![1; 16])),
        Ok(EncodeOutcome::Packet(_))
    ));
    assert!(matches!(
        encoder.encode_outcome(small_frame(0, vec![1; 16])),
        Ok(EncodeOutcome::Skipped)
    ));
}
