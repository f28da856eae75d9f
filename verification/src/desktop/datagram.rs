//! Media messages as unreliable datagrams: one message is cut into numbered fragments and put
//! together again in whatever order they arrive.
use crate::bytes::{be_bytes, be_uint, be_value, put_slice, put_u16, put_u32, put_u64};
use crate::desktop::pending::{
    alive, counted, crowded, expire, fresh, lemma_oldest_exists, make_room, oldest, with_room, Aged,
};
use crate::error::{DcError, DcErrorView};
use crate::protocol::format::{encode_failure, message_bytes, parse_message};
use crate::protocol::types::{MessageView, WireMessage, MAX_MESSAGE_SIZE};
use crate::time::{clock_now, elapsed_since, Duration};
use std::collections::BTreeMap;
use vstd::prelude::*;

verus! {

/// The bytes of a fragment before its payload.
pub const HEADER_LEN: usize = 21;

#[derive(Clone, Copy, Debug, Eq, PartialEq, Structural)]
pub enum VideoDatagramKind {
    Legacy,
    H264Nal,
}

/// The first five bytes of a whole-message fragment: `DCVD` and the version.
pub open spec fn legacy_mark() -> Seq<u8> {
    seq![0x44u8, 0x43u8, 0x56u8, 0x44u8, 1u8]
}

/// The first five bytes of a NAL fragment: `DCVN` and the version.
pub open spec fn nal_mark() -> Seq<u8> {
    seq![0x44u8, 0x43u8, 0x56u8, 0x4eu8, 1u8]
}

/// The datagram begins with the given five bytes.
pub open spec fn marked(datagram: Seq<u8>, mark: Seq<u8>) -> bool {
    datagram.len() >= 5 && datagram.take(5) == mark
}

/// The envelope of a datagram.
pub open spec fn kind_of(datagram: Seq<u8>) -> Option<VideoDatagramKind> {
    if marked(datagram, nal_mark()) {
        Some(VideoDatagramKind::H264Nal)
    } else if marked(datagram, legacy_mark()) {
        Some(VideoDatagramKind::Legacy)
    } else {
        None
    }
}

/// Tells whether a datagram begins with `DCV`, the given letter and the version.
pub(crate) fn is_marked(datagram: &[u8], letter: u8) -> (result: bool)
    ensures
        result == marked(datagram@, seq![0x44u8, 0x43u8, 0x56u8, letter, 1u8]),
{
    let ghost mark = seq![0x44u8, 0x43u8, 0x56u8, letter, 1u8];
    if datagram.len() < 5 {
        return false;
    }
    let same = datagram[0] == 0x44 && datagram[1] == 0x43 && datagram[2] == 0x56 && datagram[3]
        == letter && datagram[4] == 1;
    proof {
        let front = datagram@.take(5);
        if same {
            assert(front =~= mark);
        } else {
            assert(front[0] == datagram@[0] && front[1] == datagram@[1] && front[2] == datagram@[2]
                && front[3] == datagram@[3] && front[4] == datagram@[4]);
        }
    }
    same
}

/// Identify the envelope before selecting a reassembler. NAL capability
/// negotiation does not change the envelope used by desktop-region updates.
pub fn classify_video_datagram(datagram: &[u8]) -> (result: Option<VideoDatagramKind>)
    ensures
        result == kind_of(datagram@),
{
    if is_marked(datagram, 0x4e) {
        Some(VideoDatagramKind::H264Nal)
    } else if is_marked(datagram, 0x44) {
        Some(VideoDatagramKind::Legacy)
    } else {
        None
    }
}

/// Counters used to observe whether the unreliable video lane is dropping
/// stale data as intended rather than building an unbounded queue.
#[derive(Clone, Copy, Debug, Eq, PartialEq, Structural)]
pub struct VideoDatagramStats {
    pub completed_frames: u64,
    pub incomplete_frames: u64,
    pub malformed_fragments: u64,
}

/// All counters at zero.
pub open spec fn no_datagrams() -> VideoDatagramStats {
    VideoDatagramStats { completed_frames: 0, incomplete_frames: 0, malformed_fragments: 0 }
}

impl Default for VideoDatagramStats {
    fn default() -> (stats: Self)
        ensures
            stats == no_datagrams(),
    {
        VideoDatagramStats { completed_frames: 0, incomplete_frames: 0, malformed_fragments: 0 }
    }
}

impl VideoDatagramStats {
    pub open spec fn with_malformed(self) -> VideoDatagramStats {
        VideoDatagramStats {
            malformed_fragments: counted(self.malformed_fragments, 1),
            ..self
        }
    }

    pub open spec fn with_incomplete(self, count: nat) -> VideoDatagramStats {
        VideoDatagramStats { incomplete_frames: counted(self.incomplete_frames, count), ..self }
    }

    pub open spec fn with_completed(self) -> VideoDatagramStats {
        VideoDatagramStats { completed_frames: counted(self.completed_frames, 1), ..self }
    }

    pub(crate) fn count_malformed(&mut self)
        ensures
            *final(self) == old(self).with_malformed(),
    {
        self.malformed_fragments = self.malformed_fragments.saturating_add(1);
    }

    pub(crate) fn count_incomplete(&mut self, count: usize)
        ensures
            *final(self) == old(self).with_incomplete(count as nat),
    {
        self.incomplete_frames = self.incomplete_frames.saturating_add(count as u64);
    }

    pub(crate) fn count_completed(&mut self)
        ensures
            *final(self) == old(self).with_completed(),
    {
        self.completed_frames = self.completed_frames.saturating_add(1);
    }
}

/// One fragment of a message.
pub struct FragmentView {
    pub sequence: u64,
    pub index: u16,
    pub count: u16,
    pub total_len: nat,
    pub payload: Seq<u8>,
}

/// The datagram of a fragment.
pub open spec fn fragment_bytes(fragment: FragmentView) -> Seq<u8> {
    legacy_mark() + be_bytes(fragment.sequence as nat, 8) + be_bytes(fragment.index as nat, 2)
        + be_bytes(fragment.count as nat, 2) + be_bytes(fragment.total_len, 4) + fragment.payload
}

/// The fragment in a datagram, or the failure.
pub open spec fn fragment_of(datagram: Seq<u8>) -> Result<FragmentView, DcErrorView> {
    if datagram.len() <= HEADER_LEN || !marked(datagram, legacy_mark()) {
        Err(DcErrorView::Codec("invalid video datagram header"@))
    } else {
        Ok(
            FragmentView {
                sequence: be_value(datagram.subrange(5, 13)) as u64,
                index: be_value(datagram.subrange(13, 15)) as u16,
                count: be_value(datagram.subrange(15, 17)) as u16,
                total_len: be_value(datagram.subrange(17, 21)),
                payload: datagram.skip(21),
            },
        )
    }
}

struct Fragment {
    sequence: u64,
    index: u16,
    count: u16,
    total_len: usize,
    payload: Vec<u8>,
}

impl View for Fragment {
    type V = FragmentView;

    closed spec fn view(&self) -> FragmentView {
        FragmentView {
            sequence: self.sequence,
            index: self.index,
            count: self.count,
            total_len: self.total_len as nat,
            payload: self.payload@,
        }
    }
}

/// The big-endian number in part of a datagram.
pub(crate) fn field(datagram: &[u8], start: usize, end: usize) -> (value: u64)
    requires
        start <= end <= datagram@.len(),
        end - start <= 8,
    ensures
        value == be_value(datagram@.subrange(start as int, end as int)),
        end - start == 2 ==> value <= u16::MAX,
        end - start == 4 ==> value <= u32::MAX,
{
    let bytes = vstd::slice::slice_subrange(datagram, start, end);
    proof {
        crate::bytes::lemma_be_value_bound(bytes@);
        crate::bytes::lemma_byte_range();
    }
    be_uint(bytes)
}

fn parse_fragment(datagram: &[u8]) -> (result: Result<Fragment, DcError>)
    ensures
        match result {
            Ok(fragment) => fragment_of(datagram@) == Ok::<FragmentView, DcErrorView>(fragment@),
            Err(e) => fragment_of(datagram@) == Err::<FragmentView, DcErrorView>(e@),
        },
{
    if datagram.len() <= HEADER_LEN || !is_marked(datagram, 0x44) {
        return Err(DcError::codec("invalid video datagram header"));
    }
    let sequence: u64 = field(datagram, 5, 13);
    let index: u64 = field(datagram, 13, 15);
    let count: u64 = field(datagram, 15, 17);
    let total_len: u64 = field(datagram, 17, 21);
    let payload = vstd::slice::slice_to_vec(
        vstd::slice::slice_subrange(datagram, HEADER_LEN, datagram.len()),
    );
    assert(payload@ =~= datagram@.skip(21));
    Ok(
        Fragment {
            sequence,
            index: index as u16,
            count: count as u16,
            total_len: total_len as usize,
            payload,
        },
    )
}

/// What has arrived of one message.
pub struct PartialView {
    pub total_len: nat,
    pub parts: Seq<Option<Seq<u8>>>,
}

struct PartialFrame {
    total_len: usize,
    fragments: Vec<Option<Vec<u8>>>,
}

/// The contents of an optional buffer.
pub open spec fn part_view(part: Option<Vec<u8>>) -> Option<Seq<u8>> {
    match part {
        Some(bytes) => Some(bytes@),
        None => None,
    }
}

/// The contents of a list of optional buffers.
pub open spec fn parts_view(parts: Seq<Option<Vec<u8>>>) -> Seq<Option<Seq<u8>>> {
    parts.map_values(|part: Option<Vec<u8>>| part_view(part))
}

impl View for PartialFrame {
    type V = PartialView;

    closed spec fn view(&self) -> PartialView {
        PartialView { total_len: self.total_len as nat, parts: parts_view(self.fragments@) }
    }
}

/// Every part has arrived.
pub open spec fn all_arrived(parts: Seq<Option<Seq<u8>>>) -> bool {
    forall|i: int| 0 <= i < parts.len() ==> (#[trigger] parts[i]) is Some
}

/// The parts one after the other.
pub open spec fn joined_parts(parts: Seq<Option<Seq<u8>>>) -> Seq<u8>
    decreases parts.len(),
{
    if parts.len() == 0 {
        Seq::empty()
    } else {
        joined_parts(parts.drop_last()) + match parts.last() {
            Some(bytes) => bytes,
            None => Seq::empty(),
        }
    }
}

/// A list in which nothing has arrived.
pub open spec fn none_arrived(count: nat) -> Seq<Option<Seq<u8>>> {
    Seq::new(count, |i: int| None::<Seq<u8>>)
}

/// The list after one part has arrived; a part that is there already stays as it is.
pub open spec fn with_part(
    parts: Seq<Option<Seq<u8>>>,
    index: int,
    payload: Seq<u8>,
) -> Seq<Option<Seq<u8>>> {
    if parts[index] is None {
        parts.update(index, Some(payload))
    } else {
        parts
    }
}

/// An empty list of the given length.
pub(crate) fn empty_parts(count: usize) -> (parts: Vec<Option<Vec<u8>>>)
    ensures
        parts_view(parts@) == none_arrived(count as nat),
        parts@.len() == count,
{
    let mut parts: Vec<Option<Vec<u8>>> = Vec::with_capacity(count);
    let mut index: usize = 0;
    while index < count
        invariant
            index <= count,
            parts@.len() == index,
            forall|i: int| 0 <= i < index ==> (#[trigger] parts@[i]) is None,
        decreases count - index,
    {
        parts.push(None);
        index = index + 1;
    }
    assert(parts_view(parts@) =~= none_arrived(count as nat));
    parts
}

/// Puts a part into its place, unless it is there already.
pub(crate) fn put_part(parts: &mut Vec<Option<Vec<u8>>>, index: usize, payload: Vec<u8>)
    requires
        index < old(parts)@.len(),
    ensures
        parts_view(final(parts)@) == with_part(
            parts_view(old(parts)@),
            index as int,
            payload@,
        ),
        final(parts)@.len() == old(parts)@.len(),
{
    if parts[index].is_none() {
        parts.set(index, Some(payload));
        assert(parts_view(parts@) =~= parts_view(old(parts)@).update(index as int, Some(payload@)));
    }
}

/// Tells whether every part has arrived.
pub(crate) fn is_complete(parts: &Vec<Option<Vec<u8>>>) -> (result: bool)
    ensures
        result == all_arrived(parts_view(parts@)),
{
    let ghost view = parts_view(parts@);
    let mut index: usize = 0;
    while index < parts.len()
        invariant
            index <= parts@.len(),
            view == parts_view(parts@),
            forall|i: int| 0 <= i < index ==> (#[trigger] view[i]) is Some,
        decreases parts@.len() - index,
    {
        if parts[index].is_none() {
            assert(view[index as int] is None);
            return false;
        }
        index = index + 1;
    }
    true
}

/// Puts the parts one after the other.
pub(crate) fn join_parts(parts: &Vec<Option<Vec<u8>>>) -> (bytes: Vec<u8>)
    ensures
        bytes@ == joined_parts(parts_view(parts@)),
{
    let ghost view = parts_view(parts@);
    let mut bytes: Vec<u8> = Vec::new();
    let mut index: usize = 0;
    assert(view.take(0) =~= Seq::empty());
    while index < parts.len()
        invariant
            index <= parts@.len(),
            view == parts_view(parts@),
            bytes@ == joined_parts(view.take(index as int)),
        decreases parts@.len() - index,
    {
        assert(view.take(index + 1).drop_last() =~= view.take(index as int));
        match &parts[index] {
            Some(part) => {
                put_slice(&mut bytes, part.as_slice());
            },
            None => {
                assert(bytes@ + Seq::empty() =~= bytes@);
            },
        }
        index = index + 1;
    }
    assert(view.take(index as int) =~= view);
    bytes
}

/// The sequence number of a message that carries pictures.
pub open spec fn media_sequence_of(message: MessageView) -> Option<u64> {
    match message {
        MessageView::Video { sequence, .. } => Some(sequence),
        MessageView::DesktopUpdate { sequence, .. } => Some(sequence),
        _ => None,
    }
}

pub(crate) fn media_sequence(message: &WireMessage) -> (result: Option<u64>)
    ensures
        result == media_sequence_of(message@),
{
    match message {
        WireMessage::Video { sequence, .. } => Some(*sequence),
        WireMessage::DesktopUpdate { sequence, .. } => Some(*sequence),
        _ => None,
    }
}

/// The state of a reassembler.
pub struct LaneView {
    pub frames: Map<u64, Aged<PartialView>>,
    pub latest: Option<u64>,
    pub stats: VideoDatagramStats,
}

/// What a push returns.
pub type Delivery = Result<Option<MessageView>, DcErrorView>;

impl LaneView {
    pub open spec fn with_frames(self, frames: Map<u64, Aged<PartialView>>) -> LaneView {
        LaneView { frames, ..self }
    }

    pub open spec fn with_malformed(self) -> LaneView {
        LaneView { stats: self.stats.with_malformed(), ..self }
    }

    /// Stalled frames are given up and counted.
    pub open spec fn expired(self, now: u128) -> LaneView {
        let left = alive(self.frames, now);
        LaneView {
            frames: left,
            stats: self.stats.with_incomplete((self.frames.len() - left.len()) as nat),
            ..self
        }
    }

    /// Room is made for a frame; where another one leaves, it is counted.
    pub open spec fn roomy(self, sequence: u64) -> LaneView {
        LaneView {
            frames: with_room(self.frames, sequence),
            stats: if crowded(self.frames, sequence) {
                self.stats.with_incomplete(1)
            } else {
                self.stats
            },
            ..self
        }
    }

    /// The frame belongs to a message that was completed, or to one before it.
    pub open spec fn outdated(self, sequence: u64) -> bool {
        self.latest matches Some(latest) && sequence <= latest
    }

    /// What is known of a frame before its fragment is added.
    pub open spec fn known(self, fragment: FragmentView) -> PartialView {
        if self.frames.contains_key(fragment.sequence) {
            self.frames[fragment.sequence].content
        } else {
            PartialView {
                total_len: fragment.total_len,
                parts: none_arrived(fragment.count as nat),
            }
        }
    }

    /// All fragments of a frame are there: it leaves, and is delivered where it holds a message
    /// with its own sequence number.
    pub open spec fn deliver(
        self,
        sequence: u64,
        total_len: nat,
        parts: Seq<Option<Seq<u8>>>,
    ) -> (LaneView, Delivery) {
        let lane = self.with_frames(self.frames.remove(sequence));
        let encoded = joined_parts(parts);
        if encoded.len() != total_len {
            (
                lane.with_malformed(),
                Err(DcErrorView::Codec("video datagram frame length mismatch"@)),
            )
        } else {
            match parse_message(encoded) {
                Err(error) => (lane, Err(error)),
                Ok(message) => if media_sequence_of(message) != Some(sequence) {
                    (
                        lane.with_malformed(),
                        Err(DcErrorView::Codec("video datagram sequence mismatch"@)),
                    )
                } else {
                    (
                        LaneView {
                            latest: Some(sequence),
                            stats: lane.stats.with_completed(),
                            ..lane
                        },
                        Ok(Some(message)),
                    )
                },
            }
        }
    }

    /// A fragment with sound metadata is added to its frame.
    pub open spec fn add(self, now: u128, fragment: FragmentView) -> (LaneView, Delivery) {
        let known = self.known(fragment);
        if known.total_len != fragment.total_len || known.parts.len() != fragment.count {
            (
                self.with_frames(self.frames.remove(fragment.sequence)).with_malformed(),
                Err(DcErrorView::Codec("video datagram fragment metadata changed"@)),
            )
        } else {
            let parts = with_part(known.parts, fragment.index as int, fragment.payload);
            if all_arrived(parts) {
                self.deliver(fragment.sequence, known.total_len, parts)
            } else {
                let content = PartialView { total_len: known.total_len, parts };
                (
                    self.with_frames(
                        self.frames.insert(fragment.sequence, Aged { last: now, content }),
                    ),
                    Ok(None),
                )
            }
        }
    }

    /// What pushing a datagram at a given time does and returns.
    pub open spec fn push(self, now: u128, datagram: Seq<u8>) -> (LaneView, Delivery) {
        let lane = self.expired(now);
        match fragment_of(datagram) {
            Err(error) => (lane.with_malformed(), Err(error)),
            Ok(fragment) => if lane.outdated(fragment.sequence) {
                (lane, Ok(None))
            } else if !sound(fragment) {
                (
                    lane.with_malformed(),
                    Err(DcErrorView::Codec("invalid video datagram fragment metadata"@)),
                )
            } else {
                lane.roomy(fragment.sequence).add(now, fragment)
            },
        }
    }
}

/// The numbers of a fragment make sense by themselves.
pub open spec fn sound(fragment: FragmentView) -> bool {
    &&& fragment.count > 0
    &&& fragment.index < fragment.count
    &&& 0 < fragment.total_len <= MAX_MESSAGE_SIZE
}

/// Reassembles video messages from unordered datagram fragments. A frame
/// that misses any fragment before the deadline is discarded; the next frame
/// can still be decoded without waiting for it.
pub struct VideoDatagramReassembler {
    frames: BTreeMap<u64, Aged<PartialFrame>>,
    latest_completed: Option<u64>,
    stats: VideoDatagramStats,
    started: std::time::Instant,
}

/// The contents of an incomplete frame with its age.
spec fn aged_view(entry: Aged<PartialFrame>) -> Aged<PartialView> {
    Aged { last: entry.last, content: entry.content@ }
}

/// The contents of all incomplete frames.
spec fn frames_view(frames: Map<u64, Aged<PartialFrame>>) -> Map<u64, Aged<PartialView>> {
    frames.map_values(|entry: Aged<PartialFrame>| aged_view(entry))
}

impl View for VideoDatagramReassembler {
    type V = LaneView;

    closed spec fn view(&self) -> LaneView {
        LaneView {
            frames: frames_view(self.frames@),
            latest: self.latest_completed,
            stats: self.stats,
        }
    }
}

proof fn lemma_frames_view(frames: Map<u64, Aged<PartialFrame>>, now: u128, sequence: u64)
    requires
        frames.dom().finite(),
    ensures
        frames_view(frames).dom() == frames.dom(),
        frames_view(frames).len() == frames.len(),
        alive(frames_view(frames), now) == frames_view(alive(frames, now)),
        alive(frames, now).dom().finite(),
        crowded(frames_view(frames), sequence) == crowded(frames, sequence),
        with_room(frames_view(frames), sequence) == frames_view(with_room(frames, sequence)),
        frames_view(frames).remove(sequence) == frames_view(frames.remove(sequence)),
{
    let view = frames_view(frames);
    assert(view.dom() =~= frames.dom());
    assert(alive(view, now) =~= frames_view(alive(frames, now)));
    frames.dom().lemma_len_filter(|sequence: u64| fresh(frames[sequence], now));
    assert(alive(frames, now).dom() =~= frames.dom().filter(
        |sequence: u64| fresh(frames[sequence], now),
    ));
    if crowded(frames, sequence) {
        lemma_oldest_exists(frames);
        lemma_oldest_exists(view);
        assert(frames.contains_key(oldest(view)));
        assert(view.contains_key(oldest(frames)));
        assert(oldest(view) == oldest(frames));
        assert(with_room(view, sequence) =~= frames_view(with_room(frames, sequence)));
    }
    assert(view.remove(sequence) =~= frames_view(frames.remove(sequence)));
}

impl VideoDatagramReassembler {
    pub fn new() -> (lane: Self)
        ensures
            lane@.frames == Map::<u64, Aged<PartialView>>::empty(),
            lane@.latest is None,
            lane@.stats == no_datagrams(),
    {
        let lane = VideoDatagramReassembler {
            frames: BTreeMap::new(),
            latest_completed: None,
            stats: VideoDatagramStats::default(),
            started: clock_now(),
        };
        assert(lane@.frames =~= Map::empty());
        lane
    }

    pub fn stats(&self) -> (result: VideoDatagramStats)
        ensures
            result == self@.stats,
    {
        self.stats
    }

    /// Pushes a datagram now.
    pub fn push(&mut self, datagram: &[u8]) -> (result: Result<Option<WireMessage>, DcError>)
        ensures
            exists|now: u128|
                final(self)@ == (#[trigger] old(self)@.push(now, datagram@)).0 && delivers(
                    result,
                    old(self)@.push(now, datagram@).1,
                ),
    {
        let now = elapsed_since(&self.started);
        self.push_at(now, datagram)
    }

    /// Pushes a datagram at the given time since the reassembler was made.
    pub fn push_at(&mut self, now: Duration, datagram: &[u8]) -> (result: Result<
        Option<WireMessage>,
        DcError,
    >)
        ensures
            final(self)@ == old(self)@.push(now.nanos, datagram@).0,
            delivers(result, old(self)@.push(now.nanos, datagram@).1),
    {
        let ghost start = self@;
        let ghost held = self.frames@;
        let removed: usize = expire(&mut self.frames, now.nanos);
        self.stats.count_incomplete(removed);
        proof {
            lemma_frames_view(held, now.nanos, 0);
            lemma_frames_view(self.frames@, now.nanos, 0);
            assert(self@ == start.expired(now.nanos));
        }
        let fragment = match parse_fragment(datagram) {
            Ok(fragment) => fragment,
            Err(error) => {
                self.stats.count_malformed();
                return Err(error);
            },
        };
        let sequence: u64 = fragment.sequence;
        let outdated = match self.latest_completed {
            Some(latest) => sequence <= latest,
            None => false,
        };
        if outdated {
            return Ok(None);
        }
        if fragment.count == 0 || fragment.index >= fragment.count || fragment.total_len == 0
            || fragment.total_len > MAX_MESSAGE_SIZE {
            self.stats.count_malformed();
            return Err(DcError::codec("invalid video datagram fragment metadata"));
        }
        let ghost expired = self@;
        let ghost left = self.frames@;
        let evicted = make_room(&mut self.frames, sequence);
        if evicted {
            self.stats.count_incomplete(1);
        }
        proof {
            lemma_frames_view(left, now.nanos, sequence);
            assert(self@ == expired.roomy(sequence));
        }
        self.add(now.nanos, fragment)
    }

    fn add(&mut self, now: u128, fragment: Fragment) -> (result: Result<
        Option<WireMessage>,
        DcError,
    >)
        requires
            sound(fragment@),
        ensures
            final(self)@ == old(self)@.add(now, fragment@).0,
            delivers(result, old(self)@.add(now, fragment@).1),
    {
        let sequence: u64 = fragment.sequence;
        let ghost start = self@;
        let ghost held = self.frames@;
        let mut frame = match self.frames.remove(&sequence) {
            Some(entry) => entry.content,
            None => PartialFrame {
                total_len: fragment.total_len,
                fragments: empty_parts(fragment.count as usize),
            },
        };
        proof {
            lemma_frames_view(held, now, sequence);
            assert(self.frames@ =~= held.remove(sequence));
            assert(self@.frames == start.frames.remove(sequence));
            assert(frame@ == start.known(fragment@));
        }
        if frame.total_len != fragment.total_len || frame.fragments.len()
            != fragment.count as usize {
            self.stats.count_malformed();
            return Err(DcError::codec("video datagram fragment metadata changed"));
        }
        put_part(&mut frame.fragments, fragment.index as usize, fragment.payload);
        if !is_complete(&frame.fragments) {
            let entry = Aged { last: now, content: frame };
            let ghost rest = self.frames@;
            self.frames.insert(sequence, entry);
            proof {
                assert(frames_view(self.frames@) =~= start.frames.insert(
                    sequence,
                    aged_view(entry),
                ));
            }
            return Ok(None);
        }
        let encoded = join_parts(&frame.fragments);
        if encoded.len() != frame.total_len {
            self.stats.count_malformed();
            return Err(DcError::codec("video datagram frame length mismatch"));
        }
        let message = WireMessage::decode(encoded.as_slice())?;
        if media_sequence(&message) != Some(sequence) {
            self.stats.count_malformed();
            return Err(DcError::codec("video datagram sequence mismatch"));
        }
        self.latest_completed = Some(sequence);
        self.stats.count_completed();
        Ok(Some(message))
    }
}

impl Default for VideoDatagramReassembler {
    fn default() -> (lane: Self)
        ensures
            lane@.frames == Map::<u64, Aged<PartialView>>::empty(),
            lane@.latest is None,
            lane@.stats == no_datagrams(),
    {
        VideoDatagramReassembler::new()
    }
}

/// The result of a push is the given delivery.
pub open spec fn delivers(
    result: Result<Option<WireMessage>, DcError>,
    delivery: Delivery,
) -> bool {
    match result {
        Ok(Some(message)) => delivery == Ok::<Option<MessageView>, DcErrorView>(Some(message@)),
        Ok(None) => delivery == Ok::<Option<MessageView>, DcErrorView>(None),
        Err(e) => delivery == Err::<Option<MessageView>, DcErrorView>(e@),
    }
}

/// How many pieces of the given size a number of bytes takes.
pub open spec fn pieces(length: nat, size: nat) -> nat {
    if length % size == 0 {
        length / size
    } else {
        length / size + 1
    }
}

/// The piece of a byte string with the given number.
pub open spec fn piece(bytes: Seq<u8>, size: nat, index: nat) -> Seq<u8> {
    let start = index * size;
    let end = if start + size < bytes.len() {
        start + size
    } else {
        bytes.len()
    };
    bytes.subrange(start as int, end as int)
}

/// A piece begins inside the byte string.
proof fn lemma_piece_start(length: nat, size: nat, index: nat)
    requires
        size > 0,
        index < pieces(length, size),
    ensures
        index * size < length,
{
    let whole = length as int / size as int;
    vstd::arithmetic::div_mod::lemma_fundamental_div_mod(length as int, size as int);
    vstd::arithmetic::div_mod::lemma_mod_bound(length as int, size as int);
    assert(size * whole == whole * size) by (nonlinear_arith);
    if length as int % size as int == 0 {
        assert(index * size < whole * size) by (nonlinear_arith)
            requires
                index < whole,
                size > 0,
        ;
    } else {
        assert(index * size <= whole * size) by (nonlinear_arith)
            requires
                index <= whole,
                size > 0,
        ;
    }
}

/// A piece begins inside the byte string, and the last one ends at its end.
pub proof fn lemma_pieces(length: nat, size: nat, index: nat)
    requires
        size > 0,
        index < pieces(length, size),
    ensures
        index * size < length,
        (index + 1) * size == index * size + size,
        index + 1 < pieces(length, size) ==> (index + 1) * size < length,
        index + 1 == pieces(length, size) ==> (index + 1) * size >= length,
{
    lemma_piece_start(length, size, index);
    assert((index + 1) * size == index * size + size) by (nonlinear_arith);
    if index + 1 < pieces(length, size) {
        lemma_piece_start(length, size, index + 1);
    } else {
        let whole = length as int / size as int;
        vstd::arithmetic::div_mod::lemma_fundamental_div_mod(length as int, size as int);
        vstd::arithmetic::div_mod::lemma_mod_bound(length as int, size as int);
        assert(size * whole == whole * size) by (nonlinear_arith);
        if length as int % size as int == 0 {
            assert(index + 1 == whole);
        } else {
            assert(index == whole);
        }
    }
}

pub proof fn lemma_pieces_bound(length: nat, size: nat)
    requires
        size > 0,
    ensures
        pieces(length, size) <= length,
        length > 0 ==> pieces(length, size) > 0,
{
    vstd::arithmetic::div_mod::lemma_fundamental_div_mod(length as int, size as int);
    vstd::arithmetic::div_mod::lemma_mod_bound(length as int, size as int);
    let whole = length as int / size as int;
    assert(whole <= size * whole) by (nonlinear_arith)
        requires
            size >= 1,
            whole >= 0,
    ;
    vstd::arithmetic::div_mod::lemma_div_pos_is_pos(length as int, size as int);
    if length > 0 && length as int % size as int == 0 {
        assert(whole > 0) by (nonlinear_arith)
            requires
                length == size * whole,
                length > 0,
                size > 0,
        ;
    }
}

/// Counts the pieces of the given size.
pub(crate) fn count_pieces(length: usize, size: usize) -> (count: usize)
    requires
        size > 0,
    ensures
        count == pieces(length as nat, size as nat),
{
    proof {
        lemma_pieces_bound(length as nat, size as nat);
    }
    if length % size == 0 {
        length / size
    } else {
        length / size + 1
    }
}

/// One fragment of an encoded message.
pub open spec fn cut(sequence: u64, encoded: Seq<u8>, size: nat, index: nat) -> FragmentView {
    FragmentView {
        sequence,
        index: index as u16,
        count: pieces(encoded.len(), size) as u16,
        total_len: encoded.len(),
        payload: piece(encoded, size, index),
    }
}

/// The datagrams of an encoded message.
pub open spec fn datagrams(sequence: u64, encoded: Seq<u8>, size: nat) -> Seq<Seq<u8>> {
    Seq::new(
        pieces(encoded.len(), size),
        |index: int| fragment_bytes(cut(sequence, encoded, size, index as nat)),
    )
}

/// Why a message cannot be sent in datagrams of the given size, if it cannot.
pub open spec fn packetize_failure(message: MessageView, max_datagram_size: nat) -> Option<
    DcErrorView,
> {
    if media_sequence_of(message) is None {
        Some(DcErrorView::InvalidInput("expected desktop media message"@))
    } else if max_datagram_size <= HEADER_LEN {
        Some(DcErrorView::InvalidInput("QUIC datagram MTU is too small"@))
    } else if encode_failure(message) is Some {
        encode_failure(message)
    } else if pieces(
        message_bytes(message).len(),
        (max_datagram_size - HEADER_LEN) as nat,
    ) > u16::MAX {
        Some(DcErrorView::InvalidInput("video message requires too many datagrams"@))
    } else {
        None
    }
}

/// The contents of a list of buffers.
pub open spec fn buffers(list: Seq<Vec<u8>>) -> Seq<Seq<u8>> {
    list.map_values(|bytes: Vec<u8>| bytes@)
}

/// Serialize one encoded video message into MTU-sized unreliable fragments.
pub fn packetize_video_message(message: &WireMessage, max_datagram_size: usize) -> (result: Result<
    Vec<Vec<u8>>,
    DcError,
>)
    ensures
        match result {
            Ok(list) => packetize_failure(message@, max_datagram_size as nat) is None && buffers(
                list@,
            ) == datagrams(
                media_sequence_of(message@)->Some_0,
                message_bytes(message@),
                (max_datagram_size - HEADER_LEN) as nat,
            ),
            Err(e) => packetize_failure(message@, max_datagram_size as nat) == Some(e@),
        },
{
    let sequence: u64 = match media_sequence(message) {
        Some(sequence) => sequence,
        None => {
            return Err(DcError::invalid_input("expected desktop media message"));
        },
    };
    if max_datagram_size <= HEADER_LEN {
        return Err(DcError::invalid_input("QUIC datagram MTU is too small"));
    }
    let encoded = message.encode()?;
    let payload_size: usize = max_datagram_size - HEADER_LEN;
    let count: usize = count_pieces(encoded.len(), payload_size);
    if count > 0xffff {
        return Err(DcError::invalid_input("video message requires too many datagrams"));
    }
    let mut output: Vec<Vec<u8>> = Vec::with_capacity(count);
    let mut index: usize = 0;
    let ghost all = datagrams(sequence, encoded@, payload_size as nat);
    while index < count
        invariant
            index <= count <= 0xffff,
            payload_size > 0,
            count == pieces(encoded@.len(), payload_size as nat),
            encoded@.len() <= MAX_MESSAGE_SIZE,
            all == datagrams(sequence, encoded@, payload_size as nat),
            output@.len() == index,
            forall|i: int| 0 <= i < index ==> (#[trigger] output@[i])@ == all[i],
        decreases count - index,
    {
        proof {
            lemma_pieces(encoded@.len(), payload_size as nat, index as nat);
        }
        let start: usize = index * payload_size;
        let end: usize = if payload_size < encoded.len() - start {
            start + payload_size
        } else {
            encoded.len()
        };
        let mut fragment: Vec<u8> = Vec::with_capacity(HEADER_LEN);
        fragment.push(0x44);
        fragment.push(0x43);
        fragment.push(0x56);
        fragment.push(0x44);
        fragment.push(1);
        put_u64(&mut fragment, sequence);
        put_u16(&mut fragment, index as u16);
        put_u16(&mut fragment, count as u16);
        put_u32(&mut fragment, encoded.len() as u32);
        put_slice(
            &mut fragment,
            vstd::slice::slice_subrange(encoded.as_slice(), start, end),
        );
        assert(fragment@ == all[index as int]);
        output.push(fragment);
        index = index + 1;
    }
    assert(buffers(output@) =~= all);
    Ok(output)
}

} // verus!
