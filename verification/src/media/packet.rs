//! Encoded video packets.
use crate::error::{DcError, DcErrorView};
use crate::media::frame::{FrameLayout, FrameView, VideoFrame};
use crate::time::Duration;
use vstd::prelude::*;

verus! {

#[derive(Clone, Copy, Debug, Eq, PartialEq, Structural)]
pub enum VideoCodec {
    Raw,
    H264,
}

impl VideoCodec {
    /// The name of the codec in messages.
    pub open spec fn label(self) -> Seq<char> {
        match self {
            VideoCodec::Raw => "Raw"@,
            VideoCodec::H264 => "H264"@,
        }
    }

    /// The name of the codec in messages.
    pub fn name(self) -> (result: &'static str)
        ensures
            result@ == self.label(),
    {
        match self {
            VideoCodec::Raw => "Raw",
            VideoCodec::H264 => "H264",
        }
    }
}

/// One encoded access unit with what is needed to decode it; never empty.
#[derive(Debug, Eq, PartialEq)]
pub struct EncodedVideoPacket {
    codec: VideoCodec,
    sequence: u64,
    timestamp: Duration,
    keyframe: bool,
    source_layout: FrameLayout,
    data: Vec<u8>,
}

/// The contents of an [`EncodedVideoPacket`].
pub struct PacketView {
    pub codec: VideoCodec,
    pub sequence: u64,
    pub timestamp: Duration,
    pub keyframe: bool,
    pub source_layout: FrameLayout,
    pub data: Seq<u8>,
}

impl PacketView {
    /// The packet carries data, and the layout of its source is valid.
    pub open spec fn facts(self) -> bool {
        &&& self.data.len() > 0
        &&& self.source_layout.facts()
    }
}

impl View for EncodedVideoPacket {
    type V = PacketView;

    closed spec fn view(&self) -> PacketView {
        PacketView {
            codec: self.codec,
            sequence: self.sequence,
            timestamp: self.timestamp,
            keyframe: self.keyframe,
            source_layout: self.source_layout,
            data: self.data@,
        }
    }
}

/// The failure for a packet without data.
pub open spec fn empty_packet() -> DcErrorView {
    DcErrorView::InvalidInput("encoded video packet cannot be empty"@)
}

/// The packet that carries the pixels of a frame as they are.
pub open spec fn raw_packet(frame: FrameView) -> PacketView {
    PacketView {
        codec: VideoCodec::Raw,
        sequence: frame.sequence,
        timestamp: frame.timestamp,
        keyframe: true,
        source_layout: frame.layout,
        data: frame.data,
    }
}

impl EncodedVideoPacket {
    #[verifier::type_invariant]
    spec fn inv(self) -> bool {
        self@.facts()
    }

    pub fn new(
        codec: VideoCodec,
        sequence: u64,
        timestamp: Duration,
        keyframe: bool,
        source_layout: FrameLayout,
        data: Vec<u8>,
    ) -> (result: Result<Self, DcError>)
        ensures
            match result {
                Ok(packet) => packet@ == (PacketView {
                    codec,
                    sequence,
                    timestamp,
                    keyframe,
                    source_layout,
                    data: data@,
                }) && packet@.facts(),
                Err(e) => data@.len() == 0 && e@ == empty_packet(),
            },
    {
        if data.is_empty() {
            return Err(DcError::invalid_input("encoded video packet cannot be empty"));
        }
        let _ = source_layout.stride();
        Ok(EncodedVideoPacket { codec, sequence, timestamp, keyframe, source_layout, data })
    }

    /// A frame's pixels as a packet; every such packet is a keyframe.
    pub fn from_raw_frame(frame: VideoFrame) -> (result: Result<Self, DcError>)
        ensures
            match result {
                Ok(packet) => frame@.data.len() > 0 && packet@ == raw_packet(frame@)
                    && packet@.facts(),
                Err(e) => frame@.data.len() == 0 && e@ == empty_packet(),
            },
    {
        let sequence: u64 = frame.sequence();
        let timestamp = frame.timestamp();
        let source_layout = frame.layout();
        EncodedVideoPacket::new(
            VideoCodec::Raw,
            sequence,
            timestamp,
            true,
            source_layout,
            frame.into_data(),
        )
    }

    pub fn codec(&self) -> (result: VideoCodec)
        ensures
            result == self@.codec,
    {
        self.codec
    }

    pub fn sequence(&self) -> (result: u64)
        ensures
            result == self@.sequence,
    {
        self.sequence
    }

    pub fn timestamp(&self) -> (result: Duration)
        ensures
            result == self@.timestamp,
    {
        self.timestamp
    }

    pub fn is_keyframe(&self) -> (result: bool)
        ensures
            result == self@.keyframe,
    {
        self.keyframe
    }

    pub fn source_layout(&self) -> (result: FrameLayout)
        ensures
            result == self@.source_layout,
            self@.facts(),
    {
        proof {
            use_type_invariant(self);
        }
        self.source_layout
    }

    pub fn data(&self) -> (result: &[u8])
        ensures
            result@ == self@.data,
            self@.facts(),
    {
        proof {
            use_type_invariant(self);
        }
        self.data.as_slice()
    }

    pub fn into_data(self) -> (result: Vec<u8>)
        ensures
            result@ == self@.data,
            self@.facts(),
    {
        proof {
            use_type_invariant(&self);
        }
        self.data
    }

    /// Replace the transport sequence without changing the encoded payload.
    ///
    /// Capture sequence numbers are allowed to contain gaps when an encoder
    /// skips a frame.  The transport must instead expose a sequence for each
    /// packet that was actually emitted, so the viewer can distinguish an
    /// encoder skip from a lost packet.
    pub fn with_sequence(self, sequence: u64) -> (result: Self)
        ensures
            result@ == (PacketView { sequence, ..self@ }),
    {
        proof {
            use_type_invariant(&self);
        }
        EncodedVideoPacket {
            codec: self.codec,
            sequence,
            timestamp: self.timestamp,
            keyframe: self.keyframe,
            source_layout: self.source_layout,
            data: self.data,
        }
    }
}

impl Clone for EncodedVideoPacket {
    fn clone(&self) -> (result: Self)
        ensures
            result@ == self@,
    {
        proof {
            use_type_invariant(self);
        }
        EncodedVideoPacket {
            codec: self.codec,
            sequence: self.sequence,
            timestamp: self.timestamp,
            keyframe: self.keyframe,
            source_layout: self.source_layout,
            data: vstd::slice::slice_to_vec(self.data.as_slice()),
        }
    }
}

/// What became of a frame.
#[derive(Debug)]
pub enum EncodeOutcome {
    Packet(EncodedVideoPacket),
    /// The encoder left the frame out to keep its bit rate.
    Skipped,
}

/// What became of a frame.
pub enum OutcomeView {
    Packet(PacketView),
    Skipped,
}

impl View for EncodeOutcome {
    type V = OutcomeView;

    open spec fn view(&self) -> OutcomeView {
        match *self {
            EncodeOutcome::Packet(packet) => OutcomeView::Packet(packet@),
            EncodeOutcome::Skipped => OutcomeView::Skipped,
        }
    }
}

/// A raw packet is its frame: the same bytes in the same layout under the same number and time, and
/// complete in itself.
pub proof fn law_raw_packet_is_its_frame(frame: FrameView)
    ensures
        raw_packet(frame).data == frame.data,
        raw_packet(frame).source_layout == frame.layout,
        raw_packet(frame).sequence == frame.sequence,
        raw_packet(frame).timestamp == frame.timestamp,
        raw_packet(frame).keyframe,
        raw_packet(frame).codec == VideoCodec::Raw,
{
}

} // verus!
