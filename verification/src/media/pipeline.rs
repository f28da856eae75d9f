//! The stages of a media pipeline and a pipeline that runs them in one process.
use crate::error::{DcError, DcErrorView};
use crate::media::frame::VideoFrame;
use crate::media::packet::{EncodeOutcome, EncodedVideoPacket, VideoCodec};
use crate::text::{joined, same_text};
use crate::time::{clock_now, elapsed_since, Duration};
use vstd::prelude::*;

verus! {

pub trait FrameSource {
    /// What one capture does: the source before it, the source after it and the result. Where a
    /// source does not say, anything may happen.
    open spec fn captures(&self, after: &Self, result: Result<VideoFrame, DcError>) -> bool {
        true
    }

    fn capture(&mut self) -> (result: Result<VideoFrame, DcError>)
        ensures
            old(self).captures(final(self), result),
    ;
}

/// The error of an encoder that left a frame out, where a packet is asked for.
pub open spec fn skipped_error() -> DcErrorView {
    DcErrorView::Timeout("encoder skipped the frame"@)
}

/// Tells whether an error says that an encoder left a frame out.
fn says_skipped(error: &DcError) -> (result: bool)
    ensures
        result == (error@ == skipped_error()),
{
    match error {
        DcError::Timeout(reason) => same_text(reason.as_str(), "encoder skipped the frame"),
        _ => false,
    }
}

/// Whether an outcome is that of an attempt to get a packet: the packet, a frame that was left
/// out, or the failure.
pub open spec fn outcome_is(
    outcome: Result<EncodeOutcome, DcError>,
    encoded: Result<EncodedVideoPacket, DcError>,
) -> bool {
    match encoded {
        Ok(packet) => outcome == Ok::<EncodeOutcome, DcError>(EncodeOutcome::Packet(packet)),
        Err(error) => if error@ == skipped_error() {
            outcome == Ok::<EncodeOutcome, DcError>(EncodeOutcome::Skipped)
        } else {
            outcome == Err::<EncodeOutcome, DcError>(error)
        },
    }
}

pub trait VideoEncoder {
    /// The codec of the packets that the encoder makes.
    spec fn declared_codec(&self) -> VideoCodec;

    /// What encoding one frame does: the encoder before and after, the frame and the result.
    spec fn encodes(
        &self,
        after: &Self,
        frame: VideoFrame,
        result: Result<EncodedVideoPacket, DcError>,
    ) -> bool;

    fn codec(&self) -> (result: VideoCodec)
        ensures
            result == self.declared_codec(),
    ;

    fn encode(&mut self, frame: VideoFrame) -> (result: Result<EncodedVideoPacket, DcError>)
        ensures
            old(self).encodes(final(self), frame, result),
    ;

    /// Encodes a frame, where it is no failure that the encoder leaves the frame out to keep its
    /// bit rate.
    fn encode_outcome(&mut self, frame: VideoFrame) -> (outcome: Result<EncodeOutcome, DcError>)
        ensures
            exists|encoded: Result<EncodedVideoPacket, DcError>| #[trigger]
                old(self).encodes(final(self), frame, encoded) && outcome_is(outcome, encoded),
    {
        let encoded = self.encode(frame);
        assert(old(self).encodes(self, frame, encoded));
        match encoded {
            Ok(packet) => Ok(EncodeOutcome::Packet(packet)),
            Err(error) => if says_skipped(&error) {
                Ok(EncodeOutcome::Skipped)
            } else {
                Err(error)
            },
        }
    }
}

pub trait VideoDecoder {
    /// The codec of the packets that the decoder takes.
    spec fn declared_codec(&self) -> VideoCodec;

    /// What decoding one packet does: the decoder before and after, the packet and the result.
    spec fn decodes(
        &self,
        after: &Self,
        packet: EncodedVideoPacket,
        result: Result<VideoFrame, DcError>,
    ) -> bool;

    fn codec(&self) -> (result: VideoCodec)
        ensures
            result == self.declared_codec(),
    ;

    fn decode(&mut self, packet: EncodedVideoPacket) -> (result: Result<VideoFrame, DcError>)
        ensures
            old(self).decodes(final(self), packet, result),
    ;
}

pub trait FrameSink {
    /// What presenting one frame does: the sink before and after, the frame and the result. Where
    /// a sink does not say, anything may happen.
    open spec fn presents(
        &self,
        after: &Self,
        frame: VideoFrame,
        result: Result<(), DcError>,
    ) -> bool {
        true
    }

    fn present(&mut self, frame: VideoFrame) -> (result: Result<(), DcError>)
        ensures
            old(self).presents(final(self), frame, result),
    ;
}

/// Counters and accumulated stage times. The counters wrap around.
#[derive(Clone, Copy, Debug, Eq, PartialEq, Structural)]
pub struct PipelineStats {
    pub frames_processed: u64,
    pub source_bytes: u64,
    pub encoded_bytes: u64,
    pub capture_time: Duration,
    pub encode_time: Duration,
    pub decode_time: Duration,
    pub present_time: Duration,
}

/// All counters and times at zero.
pub open spec fn zero_stats() -> PipelineStats {
    PipelineStats {
        frames_processed: 0,
        source_bytes: 0,
        encoded_bytes: 0,
        capture_time: Duration { nanos: 0 },
        encode_time: Duration { nanos: 0 },
        decode_time: Duration { nanos: 0 },
        present_time: Duration { nanos: 0 },
    }
}

impl Default for PipelineStats {
    fn default() -> (result: Self)
        ensures
            result == zero_stats(),
    {
        PipelineStats {
            frames_processed: 0,
            source_bytes: 0,
            encoded_bytes: 0,
            capture_time: Duration::zero(),
            encode_time: Duration::zero(),
            decode_time: Duration::zero(),
            present_time: Duration::zero(),
        }
    }
}

/// The difference of two counters, or zero where it would be negative.
pub open spec fn counter_delta(now: u64, earlier: u64) -> u64 {
    if now < earlier {
        0
    } else {
        (now - earlier) as u64
    }
}

impl PipelineStats {
    /// Each measurement minus the earlier one.
    pub open spec fn delta(self, earlier: PipelineStats) -> PipelineStats {
        PipelineStats {
            frames_processed: counter_delta(self.frames_processed, earlier.frames_processed),
            source_bytes: counter_delta(self.source_bytes, earlier.source_bytes),
            encoded_bytes: counter_delta(self.encoded_bytes, earlier.encoded_bytes),
            capture_time: self.capture_time.minus(earlier.capture_time),
            encode_time: self.encode_time.minus(earlier.encode_time),
            decode_time: self.decode_time.minus(earlier.decode_time),
            present_time: self.present_time.minus(earlier.present_time),
        }
    }

    /// The counters, without the times.
    pub open spec fn counters(self) -> (u64, u64, u64) {
        (self.frames_processed, self.source_bytes, self.encoded_bytes)
    }

    pub fn delta_since(self, earlier: Self) -> (result: Self)
        ensures
            result == self.delta(earlier),
    {
        PipelineStats {
            frames_processed: self.frames_processed.saturating_sub(earlier.frames_processed),
            source_bytes: self.source_bytes.saturating_sub(earlier.source_bytes),
            encoded_bytes: self.encoded_bytes.saturating_sub(earlier.encoded_bytes),
            capture_time: self.capture_time.saturating_sub(earlier.capture_time),
            encode_time: self.encode_time.saturating_sub(earlier.encode_time),
            decode_time: self.decode_time.saturating_sub(earlier.decode_time),
            present_time: self.present_time.saturating_sub(earlier.present_time),
        }
    }
}

/// A source, an encoder, a decoder and a sink in one process.
pub struct LoopbackPipeline<S, E, D, K> {
    source: S,
    encoder: E,
    decoder: D,
    sink: K,
    stats: PipelineStats,
    skipped: u64,
}

/// The failure for an encoder that made a packet of another codec than it declares.
pub open spec fn encoder_mismatch(declared: VideoCodec, produced: VideoCodec) -> DcErrorView {
    DcErrorView::Codec(
        "encoder declared "@ + declared.label() + " but produced "@ + produced.label(),
    )
}

/// The failure for a packet that the decoder does not take.
pub open spec fn decoder_mismatch(expected: VideoCodec, received: VideoCodec) -> DcErrorView {
    DcErrorView::Codec(
        "decoder expects "@ + expected.label() + " but received "@ + received.label(),
    )
}

/// The time of one stage grew by some length of time.
pub open spec fn time_grew(before: Duration, after: Duration) -> bool {
    exists|spent: Duration| after == #[trigger] before.plus(spent)
}

impl<S, E, D, K> LoopbackPipeline<S, E, D, K> {
    pub closed spec fn the_source(self) -> S {
        self.source
    }

    pub closed spec fn the_encoder(self) -> E {
        self.encoder
    }

    pub closed spec fn the_decoder(self) -> D {
        self.decoder
    }

    pub closed spec fn the_sink(self) -> K {
        self.sink
    }

    pub closed spec fn the_stats(self) -> PipelineStats {
        self.stats
    }

    /// How many frames the encoder left out. The counter wraps around.
    pub closed spec fn the_skipped(self) -> u64 {
        self.skipped
    }
}

impl<S, E, D, K> LoopbackPipeline<S, E, D, K> where
    S: FrameSource,
    E: VideoEncoder,
    D: VideoDecoder,
    K: FrameSink,
 {
    /// The last stage of a step: the decoded frame is presented. Only then are the counters
    /// raised.
    pub open spec fn present_stage(
        self,
        after: Self,
        source_bytes: nat,
        encoded_bytes: nat,
        frame: VideoFrame,
        result: Result<PipelineStats, DcError>,
    ) -> bool {
        exists|presented: Result<(), DcError>| #[trigger]
            self.the_sink().presents(&after.the_sink(), frame, presented) && after.the_skipped()
                == self.the_skipped() && match presented {
                Err(e) => result == Err::<PipelineStats, DcError>(e) && after.the_stats().counters()
                    == self.the_stats().counters(),
                Ok(_) => result == Ok::<PipelineStats, DcError>(after.the_stats())
                    && after.the_stats().counters() == (
                    self.the_stats().frames_processed.wrapping_add(1),
                    self.the_stats().source_bytes.wrapping_add(source_bytes as u64),
                    self.the_stats().encoded_bytes.wrapping_add(encoded_bytes as u64),
                ),
            }
    }

    /// The stage that decodes a packet, and what follows it.
    pub open spec fn decode_stage(
        self,
        after: Self,
        source_bytes: nat,
        packet: EncodedVideoPacket,
        result: Result<PipelineStats, DcError>,
    ) -> bool {
        exists|decoded: Result<VideoFrame, DcError>| #[trigger]
            self.the_decoder().decodes(&after.the_decoder(), packet, decoded) && match decoded {
                Err(e) => result == Err::<PipelineStats, DcError>(e) && after.the_sink()
                    == self.the_sink() && after.the_stats().counters()
                    == self.the_stats().counters() && after.the_skipped() == self.the_skipped(),
                Ok(frame) => self.present_stage(
                    after,
                    source_bytes,
                    packet@.data.len(),
                    frame,
                    result,
                ),
            }
    }

    /// The stage that encodes a frame and compares the codecs, and what follows it. A frame that
    /// the encoder leaves out is counted and ends the step without a failure.
    pub open spec fn encode_stage(
        self,
        after: Self,
        frame: VideoFrame,
        result: Result<PipelineStats, DcError>,
    ) -> bool {
        exists|encoded: Result<EncodedVideoPacket, DcError>| #[trigger]
            self.the_encoder().encodes(&after.the_encoder(), frame, encoded) && match encoded {
                Err(e) => if e@ == skipped_error() {
                    &&& result == Ok::<PipelineStats, DcError>(after.the_stats())
                    &&& after.the_skipped() == self.the_skipped().wrapping_add(1)
                    &&& self.untouched_behind_encoder(after)
                } else {
                    &&& result == Err::<PipelineStats, DcError>(e)
                    &&& after.the_skipped() == self.the_skipped()
                    &&& self.untouched_behind_encoder(after)
                },
                Ok(packet) => if packet@.codec != after.the_encoder().declared_codec() {
                    &&& result matches Err(e) && e@ == encoder_mismatch(
                        after.the_encoder().declared_codec(),
                        packet@.codec,
                    )
                    &&& after.the_skipped() == self.the_skipped()
                    &&& self.untouched_behind_encoder(after)
                } else if packet@.codec != self.the_decoder().declared_codec() {
                    &&& result matches Err(e) && e@ == decoder_mismatch(
                        self.the_decoder().declared_codec(),
                        packet@.codec,
                    )
                    &&& after.the_skipped() == self.the_skipped()
                    &&& self.untouched_behind_encoder(after)
                } else {
                    self.decode_stage(after, frame@.data.len(), packet, result)
                },
            }
    }

    pub open spec fn untouched_behind_encoder(self, after: Self) -> bool {
        &&& after.the_decoder() == self.the_decoder()
        &&& after.the_sink() == self.the_sink()
        &&& after.the_stats().counters() == self.the_stats().counters()
    }

    /// One frame goes through the four stages; the first failure ends the step.
    pub open spec fn steps(self, after: Self, result: Result<PipelineStats, DcError>) -> bool {
        exists|captured: Result<VideoFrame, DcError>| #[trigger]
            self.the_source().captures(&after.the_source(), captured) && match captured {
                Err(e) => result == Err::<PipelineStats, DcError>(e) && after.the_encoder()
                    == self.the_encoder() && after.the_skipped() == self.the_skipped()
                    && self.untouched_behind_encoder(after),
                Ok(frame) => self.encode_stage(after, frame, result),
            }
    }

    /// The stage times only grow.
    pub open spec fn times_grew(self, after: Self) -> bool {
        let before = self.the_stats();
        let now = after.the_stats();
        &&& now.capture_time == before.capture_time || time_grew(
            before.capture_time,
            now.capture_time,
        )
        &&& now.encode_time == before.encode_time || time_grew(before.encode_time, now.encode_time)
        &&& now.decode_time == before.decode_time || time_grew(before.decode_time, now.decode_time)
        &&& now.present_time == before.present_time || time_grew(
            before.present_time,
            now.present_time,
        )
    }

    /// The states of a run in which every step succeeded.
    pub open spec fn trace(states: Seq<Self>) -> bool {
        forall|i: int|
            #![trigger states[i]]
            0 < i < states.len() ==> states[i - 1].steps(states[i], Ok(states[i].the_stats()))
    }

    /// `count` frames went through or were left out, one after the other.
    pub open spec fn advances(self, after: Self, count: nat) -> bool {
        exists|states: Seq<Self>| #[trigger]
            Self::trace(states) && states.len() == count + 1 && states.first() == self
                && states.last() == after
    }

    pub fn new(source: S, encoder: E, decoder: D, sink: K) -> (result: Self)
        ensures
            result.the_source() == source,
            result.the_encoder() == encoder,
            result.the_decoder() == decoder,
            result.the_sink() == sink,
            result.the_stats() == zero_stats(),
            result.the_skipped() == 0,
    {
        LoopbackPipeline {
            source,
            encoder,
            decoder,
            sink,
            stats: PipelineStats::default(),
            skipped: 0,
        }
    }

    pub fn process_next_frame(&mut self) -> (result: Result<PipelineStats, DcError>)
        ensures
            old(self).steps(*final(self), result),
            old(self).times_grew(*final(self)),
    {
        let ghost before = *self;
        let started = clock_now();
        let captured = self.source.capture();
        let frame = match captured {
            Ok(frame) => frame,
            Err(e) => {
                assert(before.the_source().captures(&self.the_source(), Err(e)));
                return Err(e);
            },
        };
        assert(before.the_source().captures(&self.the_source(), Ok(frame)));
        self.stats.capture_time = self.stats.capture_time.saturating_add(elapsed_since(&started));
        let source_bytes: u64 = frame.data().len() as u64;

        let started = clock_now();
        let outcome = self.encoder.encode_outcome(frame);
        let ghost encoded = choose|encoded: Result<EncodedVideoPacket, DcError>| #[trigger]
            before.the_encoder().encodes(&self.the_encoder(), frame, encoded) && outcome_is(
                outcome,
                encoded,
            );
        assert(before.the_encoder().encodes(&self.the_encoder(), frame, encoded));
        let packet = match outcome {
            Ok(EncodeOutcome::Packet(packet)) => packet,
            Ok(EncodeOutcome::Skipped) => {
                self.stats.encode_time =
                    self.stats.encode_time.saturating_add(elapsed_since(&started));
                self.skipped = self.skipped.wrapping_add(1);
                assert(before.the_encoder().encodes(&self.the_encoder(), frame, encoded));
                assert(before.encode_stage(*self, frame, Ok(self.stats)));
                assert(before.the_source().captures(&self.the_source(), Ok(frame)));
                return Ok(self.stats);
            },
            Err(e) => {
                assert(before.the_encoder().encodes(&self.the_encoder(), frame, Err(e)));
                assert(before.encode_stage(*self, frame, Err(e)));
                assert(before.the_source().captures(&self.the_source(), Ok(frame)));
                return Err(e);
            },
        };
        assert(before.the_encoder().encodes(&self.the_encoder(), frame, Ok(packet)));
        self.stats.encode_time = self.stats.encode_time.saturating_add(elapsed_since(&started));
        let produced = packet.codec();
        let declared = self.encoder.codec();
        if produced != declared {
            let message = joined("encoder declared ", declared.name());
            let message = joined(message.as_str(), " but produced ");
            let message = joined(message.as_str(), produced.name());
            let error = DcError::Codec(message);
            assert(before.the_encoder().encodes(&self.the_encoder(), frame, Ok(packet)));
            assert(before.encode_stage(*self, frame, Err(error)));
            assert(before.the_source().captures(&self.the_source(), Ok(frame)));
            return Err(error);
        }
        let expected = self.decoder.codec();
        if produced != expected {
            let message = joined("decoder expects ", expected.name());
            let message = joined(message.as_str(), " but received ");
            let message = joined(message.as_str(), produced.name());
            let error = DcError::Codec(message);
            assert(before.the_encoder().encodes(&self.the_encoder(), frame, Ok(packet)));
            assert(before.encode_stage(*self, frame, Err(error)));
            assert(before.the_source().captures(&self.the_source(), Ok(frame)));
            return Err(error);
        }
        let encoded_bytes: u64 = packet.data().len() as u64;

        let started = clock_now();
        let decoded = self.decoder.decode(packet);
        let shown = match decoded {
            Ok(shown) => shown,
            Err(e) => {
                assert(before.the_decoder().decodes(&self.the_decoder(), packet, Err(e)));
                assert(before.decode_stage(*self, source_bytes as nat, packet, Err(e)));
                assert(before.the_encoder().encodes(&self.the_encoder(), frame, Ok(packet)));
                assert(before.encode_stage(*self, frame, Err(e)));
                assert(before.the_source().captures(&self.the_source(), Ok(frame)));
                return Err(e);
            },
        };
        assert(before.the_decoder().decodes(&self.the_decoder(), packet, Ok(shown)));
        self.stats.decode_time = self.stats.decode_time.saturating_add(elapsed_since(&started));

        let started = clock_now();
        let presented = self.sink.present(shown);
        match presented {
            Ok(_) => {},
            Err(e) => {
                assert(before.the_sink().presents(&self.the_sink(), shown, Err(e)));
                assert(before.the_decoder().decodes(&self.the_decoder(), packet, Ok(shown)));
                assert(before.decode_stage(*self, source_bytes as nat, packet, Err(e)));
                assert(before.the_encoder().encodes(&self.the_encoder(), frame, Ok(packet)));
                assert(before.encode_stage(*self, frame, Err(e)));
                assert(before.the_source().captures(&self.the_source(), Ok(frame)));
                return Err(e);
            },
        }
        assert(before.the_sink().presents(&self.the_sink(), shown, presented));
        self.stats.present_time = self.stats.present_time.saturating_add(elapsed_since(&started));

        self.stats.frames_processed = self.stats.frames_processed.wrapping_add(1);
        self.stats.source_bytes = self.stats.source_bytes.wrapping_add(source_bytes);
        self.stats.encoded_bytes = self.stats.encoded_bytes.wrapping_add(encoded_bytes);
        proof {
            assert(before.the_sink().presents(&self.the_sink(), shown, presented));
            assert(before.the_decoder().decodes(&self.the_decoder(), packet, Ok(shown)));
            assert(before.decode_stage(*self, source_bytes as nat, packet, Ok(self.stats)));
            assert(before.the_encoder().encodes(&self.the_encoder(), frame, Ok(packet)));
            assert(before.encode_stage(*self, frame, Ok(self.stats)));
            assert(before.the_source().captures(&self.the_source(), Ok(frame)));
        }
        Ok(self.stats)
    }

    pub fn run_frames(&mut self, count: u64) -> (result: Result<PipelineStats, DcError>)
        ensures
            match result {
                Ok(stats) => stats == final(self).the_stats() && old(self).advances(
                    *final(self),
                    count as nat,
                ),
                Err(e) => exists|middle: Self, done: nat|
                    done < count && #[trigger] old(self).advances(middle, done) && middle.steps(
                        *final(self),
                        Err(e),
                    ),
            },
    {
        let mut done: u64 = 0;
        let ghost mut states = seq![*self];
        assert(Self::trace(states));
        while done < count
            invariant
                done <= count,
                Self::trace(states),
                states.len() == done + 1,
                states.first() == *old(self),
                states.last() == *self,
            decreases count - done,
        {
            let ghost middle = *self;
            match self.process_next_frame() {
                Ok(stats) => {
                    proof {
                        states = states.push(*self);
                        assert(Self::trace(states)) by {
                            assert forall|i: int| #![trigger states[i]] 0 < i
                                < states.len() implies states[i - 1].steps(
                                states[i],
                                Ok(states[i].the_stats()),
                            ) by {
                                if i < states.len() - 1 {
                                    assert(states.drop_last()[i] == states[i]);
                                }
                            }
                        }
                    }
                },
                Err(e) => {
                    assert(old(self).advances(middle, done as nat));
                    return Err(e);
                },
            }
            done = done + 1;
        }
        assert(old(self).advances(*self, count as nat));
        Ok(self.stats)
    }

    pub fn stats(&self) -> (result: PipelineStats)
        ensures
            result == self.the_stats(),
    {
        self.stats
    }

    /// How many frames the encoder left out.
    pub fn frames_skipped(&self) -> (count: u64)
        ensures
            count == self.the_skipped(),
    {
        self.skipped
    }

    pub fn sink(&self) -> (result: &K)
        ensures
            *result == self.the_sink(),
    {
        &self.sink
    }

    pub fn sink_mut(&mut self) -> (result: &mut K)
        ensures
            *result == old(self).the_sink(),
            final(self).the_sink() == *final(result),
            final(self).the_source() == old(self).the_source(),
            final(self).the_encoder() == old(self).the_encoder(),
            final(self).the_decoder() == old(self).the_decoder(),
            final(self).the_stats() == old(self).the_stats(),
            final(self).the_skipped() == old(self).the_skipped(),
    {
        &mut self.sink
    }

    pub fn into_parts(self) -> (result: (S, E, D, K))
        ensures
            result == (self.the_source(), self.the_encoder(), self.the_decoder(), self.the_sink()),
    {
        (self.source, self.encoder, self.decoder, self.sink)
    }
}

proof fn lemma_trace_counts<S, E, D, K>(states: Seq<LoopbackPipeline<S, E, D, K>>, index: int)
    where S: FrameSource, E: VideoEncoder, D: VideoDecoder, K: FrameSink
    requires
        LoopbackPipeline::trace(states),
        0 <= index < states.len(),
        states[0].the_stats().frames_processed + index <= u64::MAX,
        states[0].the_skipped() + index <= u64::MAX,
    ensures
        states[0].the_stats().frames_processed <= states[index].the_stats().frames_processed,
        states[0].the_skipped() <= states[index].the_skipped(),
        states[index].the_stats().frames_processed + states[index].the_skipped()
            == states[0].the_stats().frames_processed + states[0].the_skipped() + index,
    decreases index,
{
    if index > 0 {
        lemma_trace_counts(states, index - 1);
        assert(states[index - 1].steps(states[index], Ok(states[index].the_stats())));
    }
}

/// Every frame is counted once: as one that went through, or as one that the encoder left out.
pub proof fn law_every_frame_is_counted<S, E, D, K>(
    before: LoopbackPipeline<S, E, D, K>,
    after: LoopbackPipeline<S, E, D, K>,
    count: nat,
) where S: FrameSource, E: VideoEncoder, D: VideoDecoder, K: FrameSink
    requires
        before.advances(after, count),
        before.the_stats().frames_processed + count <= u64::MAX,
        before.the_skipped() + count <= u64::MAX,
    ensures
        before.the_stats().frames_processed <= after.the_stats().frames_processed,
        before.the_skipped() <= after.the_skipped(),
        after.the_stats().frames_processed + after.the_skipped()
            == before.the_stats().frames_processed + before.the_skipped() + count,
{
    let states = choose|states: Seq<LoopbackPipeline<S, E, D, K>>| #[trigger]
        LoopbackPipeline::trace(states) && states.len() == count + 1 && states.first() == before
            && states.last() == after;
    lemma_trace_counts(states, count as int);
}

/// A step that goes through shows what the decoder made of what the encoder made of what the source
/// gave, and counts one frame, its bytes and those of its packet. A step that the encoder leaves out
/// counts as skipped and shows nothing, and one that fails shows nothing more and counts nothing.
pub proof fn law_step_shows_what_was_captured<S, E, D, K>(
    before: LoopbackPipeline<S, E, D, K>,
    after: LoopbackPipeline<S, E, D, K>,
    result: Result<PipelineStats, DcError>,
) where S: FrameSource, E: VideoEncoder, D: VideoDecoder, K: FrameSink
    requires
        before.steps(after, result),
        before.the_stats().frames_processed < u64::MAX,
        before.the_skipped() < u64::MAX,
    ensures
        result is Ok ==> result->Ok_0 == after.the_stats(),
        result is Ok && after.the_skipped() == before.the_skipped() ==> exists|
            frame: VideoFrame,
            packet: EncodedVideoPacket,
            shown: VideoFrame,
            told: Result<(), DcError>,
        |
            {
                &&& told is Ok
                &&& before.the_source().captures(&after.the_source(), Ok(frame))
                &&& #[trigger] before.the_encoder().encodes(&after.the_encoder(), frame, Ok(packet))
                &&& #[trigger] before.the_decoder().decodes(&after.the_decoder(), packet, Ok(shown))
                &&& #[trigger] before.the_sink().presents(&after.the_sink(), shown, told)
                &&& packet@.codec == before.the_decoder().declared_codec()
                &&& after.the_stats().frames_processed == before.the_stats().frames_processed + 1
                &&& after.the_stats().source_bytes == before.the_stats().source_bytes.wrapping_add(
                    frame@.data.len() as u64,
                )
                &&& after.the_stats().encoded_bytes
                    == before.the_stats().encoded_bytes.wrapping_add(packet@.data.len() as u64)
            },
        after.the_skipped() != before.the_skipped() ==> {
            &&& result is Ok
            &&& after.the_skipped() == before.the_skipped() + 1
            &&& after.the_sink() == before.the_sink()
            &&& after.the_decoder() == before.the_decoder()
            &&& after.the_stats().frames_processed == before.the_stats().frames_processed
        },
        result is Err ==> {
            &&& after.the_skipped() == before.the_skipped()
            &&& after.the_stats().frames_processed == before.the_stats().frames_processed
            &&& after.the_stats().source_bytes == before.the_stats().source_bytes
            &&& after.the_stats().encoded_bytes == before.the_stats().encoded_bytes
        },
{
    if result is Ok && after.the_skipped() == before.the_skipped() {
        let captured = choose|captured: Result<VideoFrame, DcError>| #[trigger]
            before.the_source().captures(&after.the_source(), captured) && match captured {
                Err(e) => result == Err::<PipelineStats, DcError>(e) && after.the_encoder()
                    == before.the_encoder() && after.the_skipped() == before.the_skipped()
                    && before.untouched_behind_encoder(after),
                Ok(frame) => before.encode_stage(after, frame, result),
            };
        let frame = captured->Ok_0;
        assert(before.encode_stage(after, frame, result));
        let encoded = choose|encoded: Result<EncodedVideoPacket, DcError>| #[trigger]
            before.the_encoder().encodes(&after.the_encoder(), frame, encoded) && match encoded {
                Err(e) => false,
                Ok(packet) => packet@.codec == after.the_encoder().declared_codec() && packet@.codec
                    == before.the_decoder().declared_codec() && before.decode_stage(
                    after,
                    frame@.data.len(),
                    packet,
                    result,
                ),
            };
        let packet = encoded->Ok_0;
        assert(before.decode_stage(after, frame@.data.len(), packet, result));
        let decoded = choose|decoded: Result<VideoFrame, DcError>| #[trigger]
            before.the_decoder().decodes(&after.the_decoder(), packet, decoded) && match decoded {
                Err(e) => false,
                Ok(shown) => before.present_stage(
                    after,
                    frame@.data.len(),
                    packet@.data.len(),
                    shown,
                    result,
                ),
            };
        let shown = decoded->Ok_0;
        assert(before.present_stage(
            after,
            frame@.data.len(),
            packet@.data.len(),
            shown,
            result,
        ));
        let presented = choose|presented: Result<(), DcError>| #[trigger]
            before.the_sink().presents(&after.the_sink(), shown, presented) && presented is Ok
                && after.the_stats().counters() == (
                before.the_stats().frames_processed.wrapping_add(1),
                before.the_stats().source_bytes.wrapping_add(frame@.data.len() as u64),
                before.the_stats().encoded_bytes.wrapping_add(packet@.data.len() as u64),
            );
        assert(before.the_sink().presents(&after.the_sink(), shown, presented));
        assert(before.the_encoder().encodes(&after.the_encoder(), frame, Ok(packet)));
        assert(before.the_decoder().decodes(&after.the_decoder(), packet, Ok(shown)));
    }
}

/// What was counted since an earlier look is the difference of the two, each number by itself.
pub proof fn law_counts_since_are_differences(now: PipelineStats, earlier: PipelineStats)
    ensures
        now.frames_processed >= earlier.frames_processed ==> now.delta(earlier).frames_processed
            == now.frames_processed - earlier.frames_processed,
        now.source_bytes >= earlier.source_bytes ==> now.delta(earlier).source_bytes
            == now.source_bytes - earlier.source_bytes,
        now.encoded_bytes >= earlier.encoded_bytes ==> now.delta(earlier).encoded_bytes
            == now.encoded_bytes - earlier.encoded_bytes,
        now.capture_time.nanos >= earlier.capture_time.nanos ==> now.delta(
            earlier,
        ).capture_time.nanos == now.capture_time.nanos - earlier.capture_time.nanos,
        now.encode_time.nanos >= earlier.encode_time.nanos ==> now.delta(earlier).encode_time.nanos
            == now.encode_time.nanos - earlier.encode_time.nanos,
        now.decode_time.nanos >= earlier.decode_time.nanos ==> now.delta(earlier).decode_time.nanos
            == now.decode_time.nanos - earlier.decode_time.nanos,
        now.present_time.nanos >= earlier.present_time.nanos ==> now.delta(
            earlier,
        ).present_time.nanos == now.present_time.nanos - earlier.present_time.nanos,
        now.delta(now) == zero_stats(),
        now.frames_processed < earlier.frames_processed ==> now.delta(earlier).frames_processed
            == 0,
{
}

/// A packet is passed on as it is, a frame that the encoder left out is no failure, and every other
/// failure stays the failure that it is.
pub proof fn law_left_out_frames_are_no_failure(
    outcome: Result<EncodeOutcome, DcError>,
    encoded: Result<EncodedVideoPacket, DcError>,
)
    requires
        outcome_is(outcome, encoded),
    ensures
        encoded matches Ok(packet) ==> outcome == Ok::<EncodeOutcome, DcError>(
            EncodeOutcome::Packet(packet),
        ),
        outcome matches Ok(EncodeOutcome::Packet(packet)) ==> encoded == Ok::<
            EncodedVideoPacket,
            DcError,
        >(packet),
        outcome matches Err(error) ==> encoded == Err::<EncodedVideoPacket, DcError>(error) && error@
            != DcErrorView::Timeout("encoder skipped the frame"@),
        outcome == Ok::<EncodeOutcome, DcError>(EncodeOutcome::Skipped) ==> (encoded matches Err(
            error,
        ) && error@ == DcErrorView::Timeout("encoder skipped the frame"@)),
{
}

/// The time of a stage never gets less, up to the longest time that a duration can tell.
pub proof fn law_stage_times_grow<S, E, D, K>(
    before: LoopbackPipeline<S, E, D, K>,
    after: LoopbackPipeline<S, E, D, K>,
) where S: FrameSource, E: VideoEncoder, D: VideoDecoder, K: FrameSink
    requires
        before.times_grew(after),
        before.the_stats().capture_time.nanos <= 18_446_744_073_709_551_615_999_999_999,
        before.the_stats().encode_time.nanos <= 18_446_744_073_709_551_615_999_999_999,
        before.the_stats().decode_time.nanos <= 18_446_744_073_709_551_615_999_999_999,
        before.the_stats().present_time.nanos <= 18_446_744_073_709_551_615_999_999_999,
    ensures
        before.the_stats().capture_time.nanos <= after.the_stats().capture_time.nanos,
        before.the_stats().encode_time.nanos <= after.the_stats().encode_time.nanos,
        before.the_stats().decode_time.nanos <= after.the_stats().decode_time.nanos,
        before.the_stats().present_time.nanos <= after.the_stats().present_time.nanos,
{
}

} // verus!
