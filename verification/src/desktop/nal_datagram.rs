//! H.264 access units as unreliable datagrams: each NAL unit is cut into fragments by itself, so
//! that one lost fragment costs one unit.
use crate::bytes::{be_bytes, be_value, flag_byte, put_flag, put_slice, put_u16, put_u32, put_u64};
use crate::desktop::datagram::{
    all_arrived, buffers, count_pieces, delivers, empty_parts, field, is_complete, is_marked,
    join_parts, joined_parts, lemma_pieces, marked, nal_mark, no_datagrams, none_arrived,
    parts_view, piece, pieces, put_part, with_part, Delivery, VideoDatagramStats,
};
use crate::desktop::pending::{
    alive, crowded, expire, fresh, lemma_oldest_exists, make_room, oldest, with_room, Aged,
};
use crate::error::{DcError, DcErrorView};
use crate::media::nal::{annex_b, contents, nal_units, put_unit, split_h264_nal_units};
use crate::protocol::types::{MessageView, WireMessage, MAX_MESSAGE_SIZE};
use crate::time::{clock_now, elapsed_since, Duration};
use std::collections::BTreeMap;
use vstd::prelude::*;

verus! {

/// The bytes of a NAL fragment before its payload.
pub const NAL_HEADER_LEN: usize = 48;

/// The most NAL units of an access unit.
pub const MAX_NAL_UNITS: usize = 4_096;

/// The most fragments of a NAL unit.
pub const MAX_NAL_FRAGMENTS: usize = 16_384;

/// What the fragments of one access unit have in common.
#[derive(Clone, Copy, Debug, Eq, PartialEq, Structural)]
pub struct PictureInfo {
    pub codec: u8,
    pub timestamp_millis: u64,
    pub keyframe: bool,
    pub width: u32,
    pub height: u32,
    pub pixel_format: u8,
    pub stride: u32,
}

/// One fragment of a NAL unit.
pub struct NalFragmentView {
    pub info: PictureInfo,
    pub sequence: u64,
    pub unit_index: u16,
    pub unit_count: u16,
    pub fragment_index: u16,
    pub fragment_count: u16,
    pub unit_len: nat,
    pub payload: Seq<u8>,
}

/// The datagram of a fragment before its payload.
pub open spec fn nal_header(fragment: NalFragmentView) -> Seq<u8> {
    nal_mark().push(fragment.info.codec) + be_bytes(fragment.sequence as nat, 8) + be_bytes(
        fragment.info.timestamp_millis as nat,
        8,
    ) + seq![flag_byte(fragment.info.keyframe)] + be_bytes(fragment.info.width as nat, 4)
        + be_bytes(fragment.info.height as nat, 4) + seq![fragment.info.pixel_format] + be_bytes(
        fragment.info.stride as nat,
        4,
    ) + be_bytes(fragment.unit_index as nat, 2) + be_bytes(fragment.unit_count as nat, 2)
        + be_bytes(fragment.fragment_index as nat, 2) + be_bytes(fragment.fragment_count as nat, 2)
        + be_bytes(fragment.unit_len, 4)
}

/// The datagram of a fragment.
pub open spec fn nal_fragment_bytes(fragment: NalFragmentView) -> Seq<u8> {
    nal_header(fragment) + fragment.payload
}

/// The fragment in a datagram, or the failure.
pub open spec fn nal_fragment_of(datagram: Seq<u8>) -> Result<NalFragmentView, DcErrorView> {
    if datagram.len() <= NAL_HEADER_LEN || !marked(datagram, nal_mark()) {
        Err(DcErrorView::Codec("invalid H.264 NAL datagram header"@))
    } else {
        Ok(
            NalFragmentView {
                info: PictureInfo {
                    codec: datagram[5],
                    timestamp_millis: be_value(datagram.subrange(14, 22)) as u64,
                    keyframe: datagram[22] != 0,
                    width: be_value(datagram.subrange(23, 27)) as u32,
                    height: be_value(datagram.subrange(27, 31)) as u32,
                    pixel_format: datagram[31],
                    stride: be_value(datagram.subrange(32, 36)) as u32,
                },
                sequence: be_value(datagram.subrange(6, 14)) as u64,
                unit_index: be_value(datagram.subrange(36, 38)) as u16,
                unit_count: be_value(datagram.subrange(38, 40)) as u16,
                fragment_index: be_value(datagram.subrange(40, 42)) as u16,
                fragment_count: be_value(datagram.subrange(42, 44)) as u16,
                unit_len: be_value(datagram.subrange(44, 48)),
                payload: datagram.skip(48),
            },
        )
    }
}

struct NalFragment {
    info: PictureInfo,
    sequence: u64,
    unit_index: u16,
    unit_count: u16,
    fragment_index: u16,
    fragment_count: u16,
    unit_len: usize,
    payload: Vec<u8>,
}

impl View for NalFragment {
    type V = NalFragmentView;

    closed spec fn view(&self) -> NalFragmentView {
        NalFragmentView {
            info: self.info,
            sequence: self.sequence,
            unit_index: self.unit_index,
            unit_count: self.unit_count,
            fragment_index: self.fragment_index,
            fragment_count: self.fragment_count,
            unit_len: self.unit_len as nat,
            payload: self.payload@,
        }
    }
}

fn parse_nal_fragment(datagram: &[u8]) -> (result: Result<NalFragment, DcError>)
    ensures
        match result {
            Ok(fragment) => nal_fragment_of(datagram@) == Ok::<NalFragmentView, DcErrorView>(
                fragment@,
            ),
            Err(e) => nal_fragment_of(datagram@) == Err::<NalFragmentView, DcErrorView>(e@),
        },
{
    if datagram.len() <= NAL_HEADER_LEN || !is_marked(datagram, 0x4e) {
        return Err(DcError::codec("invalid H.264 NAL datagram header"));
    }
    let info = PictureInfo {
        codec: datagram[5],
        timestamp_millis: field(datagram, 14, 22),
        keyframe: datagram[22] != 0,
        width: field(datagram, 23, 27) as u32,
        height: field(datagram, 27, 31) as u32,
        pixel_format: datagram[31],
        stride: field(datagram, 32, 36) as u32,
    };
    let sequence: u64 = field(datagram, 6, 14);
    let unit_index: u16 = field(datagram, 36, 38) as u16;
    let unit_count: u16 = field(datagram, 38, 40) as u16;
    let fragment_index: u16 = field(datagram, 40, 42) as u16;
    let fragment_count: u16 = field(datagram, 42, 44) as u16;
    let unit_len: u64 = field(datagram, 44, 48);
    let payload = vstd::slice::slice_to_vec(
        vstd::slice::slice_subrange(datagram, NAL_HEADER_LEN, datagram.len()),
    );
    assert(payload@ =~= datagram@.skip(48));
    Ok(
        NalFragment {
            info,
            sequence,
            unit_index,
            unit_count,
            fragment_index,
            fragment_count,
            unit_len: unit_len as usize,
            payload,
        },
    )
}

/// What has arrived of one NAL unit.
pub enum SlotView {
    Empty,
    Partial { total_len: nat, parts: Seq<Option<Seq<u8>>> },
    Complete(Seq<u8>),
}

enum UnitSlot {
    Empty,
    Partial { total_len: usize, parts: Vec<Option<Vec<u8>>> },
    Complete(Vec<u8>),
}

impl View for UnitSlot {
    type V = SlotView;

    closed spec fn view(&self) -> SlotView {
        match *self {
            UnitSlot::Empty => SlotView::Empty,
            UnitSlot::Partial { total_len, parts } => SlotView::Partial {
                total_len: total_len as nat,
                parts: parts_view(parts@),
            },
            UnitSlot::Complete(bytes) => SlotView::Complete(bytes@),
        }
    }
}

/// The bytes that were announced for a unit.
pub open spec fn slot_bytes(slot: SlotView) -> nat {
    match slot {
        SlotView::Empty => 0,
        SlotView::Partial { total_len, .. } => total_len,
        SlotView::Complete(bytes) => bytes.len(),
    }
}

/// The bytes that were announced for all units.
pub open spec fn declared_bytes(slots: Seq<SlotView>) -> nat
    decreases slots.len(),
{
    if slots.len() == 0 {
        0
    } else {
        declared_bytes(slots.drop_last()) + slot_bytes(slots.last())
    }
}

/// Every unit has arrived.
pub open spec fn all_complete(slots: Seq<SlotView>) -> bool {
    forall|i: int| 0 <= i < slots.len() ==> (#[trigger] slots[i]) is Complete
}

/// The units of an access unit that has arrived.
pub open spec fn unit_list(slots: Seq<SlotView>) -> Seq<Seq<u8>> {
    slots.map_values(|slot: SlotView| slot->Complete_0)
}

/// What has arrived of one access unit.
pub struct NalFrameView {
    pub info: PictureInfo,
    pub slots: Seq<SlotView>,
}

struct PartialNalFrame {
    info: PictureInfo,
    slots: Vec<UnitSlot>,
}

/// The contents of a list of slots.
spec fn slots_view(slots: Seq<UnitSlot>) -> Seq<SlotView> {
    slots.map_values(|slot: UnitSlot| slot@)
}

impl View for PartialNalFrame {
    type V = NalFrameView;

    closed spec fn view(&self) -> NalFrameView {
        NalFrameView { info: self.info, slots: slots_view(self.slots@) }
    }
}

/// A list of slots in which nothing has arrived.
pub open spec fn empty_slots(count: nat) -> Seq<SlotView> {
    Seq::new(count, |i: int| SlotView::Empty)
}

/// A slot after a fragment of its unit has arrived, or why the fragment is refused.
pub open spec fn filled_slot(slots: Seq<SlotView>, fragment: NalFragmentView) -> Result<
    SlotView,
    DcErrorView,
> {
    match slots[fragment.unit_index as int] {
        SlotView::Complete(bytes) => Ok(SlotView::Complete(bytes)),
        SlotView::Empty => if declared_bytes(slots) + fragment.unit_len > MAX_MESSAGE_SIZE {
            Err(DcErrorView::Codec("H.264 access unit exceeds protocol limit"@))
        } else {
            grown_slot(
                fragment.unit_len,
                none_arrived(fragment.fragment_count as nat),
                fragment,
            )
        },
        SlotView::Partial { total_len, parts } => if total_len != fragment.unit_len || parts.len()
            != fragment.fragment_count {
            Err(DcErrorView::Codec("H.264 NAL metadata changed"@))
        } else {
            grown_slot(total_len, parts, fragment)
        },
    }
}

/// A slot after a fragment was added to the parts that were there.
pub open spec fn grown_slot(
    total_len: nat,
    parts: Seq<Option<Seq<u8>>>,
    fragment: NalFragmentView,
) -> Result<SlotView, DcErrorView> {
    let more = with_part(parts, fragment.fragment_index as int, fragment.payload);
    if !all_arrived(more) {
        Ok(SlotView::Partial { total_len, parts: more })
    } else if joined_parts(more).len() != total_len {
        Err(DcErrorView::Codec("H.264 NAL length mismatch"@))
    } else {
        Ok(SlotView::Complete(joined_parts(more)))
    }
}

/// The message of an access unit.
pub open spec fn picture_message(sequence: u64, info: PictureInfo, data: Seq<u8>) -> MessageView {
    MessageView::Video {
        codec: info.codec,
        sequence,
        timestamp_millis: info.timestamp_millis,
        keyframe: info.keyframe,
        width: info.width,
        height: info.height,
        pixel_format: info.pixel_format,
        stride: info.stride,
        data,
    }
}

/// The numbers of a fragment make sense by themselves.
pub open spec fn nal_sound(fragment: NalFragmentView) -> bool {
    &&& 0 < fragment.unit_count <= MAX_NAL_UNITS
    &&& fragment.info.codec == 1
    &&& fragment.unit_index < fragment.unit_count
    &&& 0 < fragment.fragment_count <= MAX_NAL_FRAGMENTS
    &&& fragment.fragment_index < fragment.fragment_count
    &&& 0 < fragment.unit_len <= MAX_MESSAGE_SIZE
    &&& fragment.payload.len() <= fragment.unit_len
}

/// The state of a NAL reassembler.
pub struct NalLaneView {
    pub frames: Map<u64, Aged<NalFrameView>>,
    pub latest: Option<u64>,
    pub stats: VideoDatagramStats,
}

impl NalLaneView {
    pub open spec fn with_frames(self, frames: Map<u64, Aged<NalFrameView>>) -> NalLaneView {
        NalLaneView { frames, ..self }
    }

    pub open spec fn with_malformed(self) -> NalLaneView {
        NalLaneView { stats: self.stats.with_malformed(), ..self }
    }

    /// The access unit is given up because of a bad fragment.
    pub open spec fn dropped(self, sequence: u64) -> NalLaneView {
        self.with_frames(self.frames.remove(sequence)).with_malformed()
    }

    /// Stalled access units are given up and counted.
    pub open spec fn expired(self, now: u128) -> NalLaneView {
        let left = alive(self.frames, now);
        NalLaneView {
            frames: left,
            stats: self.stats.with_incomplete((self.frames.len() - left.len()) as nat),
            ..self
        }
    }

    /// Room is made for an access unit; where another one leaves, it is counted.
    pub open spec fn roomy(self, sequence: u64) -> NalLaneView {
        NalLaneView {
            frames: with_room(self.frames, sequence),
            stats: if crowded(self.frames, sequence) {
                self.stats.with_incomplete(1)
            } else {
                self.stats
            },
            ..self
        }
    }

    /// The access unit was completed, or came before one that was.
    pub open spec fn outdated(self, sequence: u64) -> bool {
        self.latest matches Some(latest) && sequence <= latest
    }

    /// What is known of an access unit before a fragment is added.
    pub open spec fn known(self, fragment: NalFragmentView) -> NalFrameView {
        if self.frames.contains_key(fragment.sequence) {
            self.frames[fragment.sequence].content
        } else {
            NalFrameView { info: fragment.info, slots: empty_slots(fragment.unit_count as nat) }
        }
    }

    /// All units are there: the access unit leaves and is delivered, unless it is too long.
    pub open spec fn deliver(self, sequence: u64, info: PictureInfo, slots: Seq<SlotView>) -> (
        NalLaneView,
        Delivery,
    ) {
        let lane = self.with_frames(self.frames.remove(sequence));
        let data = annex_b(unit_list(slots));
        if data.len() > MAX_MESSAGE_SIZE {
            (
                lane.with_malformed(),
                Err(DcErrorView::Codec("H.264 access unit exceeds protocol limit"@)),
            )
        } else {
            (
                NalLaneView {
                    latest: Some(sequence),
                    stats: lane.stats.with_completed(),
                    ..lane
                },
                Ok(Some(picture_message(sequence, info, data))),
            )
        }
    }

    /// A fragment with sound metadata is added to its access unit.
    pub open spec fn add(self, now: u128, fragment: NalFragmentView) -> (NalLaneView, Delivery) {
        let known = self.known(fragment);
        if known.info != fragment.info || known.slots.len() != fragment.unit_count {
            (
                self.dropped(fragment.sequence),
                Err(DcErrorView::Codec("H.264 NAL frame metadata changed"@)),
            )
        } else {
            match filled_slot(known.slots, fragment) {
                Err(error) => (self.dropped(fragment.sequence), Err(error)),
                Ok(slot) => {
                    let slots = known.slots.update(fragment.unit_index as int, slot);
                    if all_complete(slots) {
                        self.deliver(fragment.sequence, known.info, slots)
                    } else {
                        let content = NalFrameView { info: known.info, slots };
                        (
                            self.with_frames(
                                self.frames.insert(
                                    fragment.sequence,
                                    Aged { last: now, content },
                                ),
                            ),
                            Ok(None),
                        )
                    }
                },
            }
        }
    }

    /// What pushing a datagram at a given time does and returns.
    pub open spec fn push(self, now: u128, datagram: Seq<u8>) -> (NalLaneView, Delivery) {
        let lane = self.expired(now);
        match nal_fragment_of(datagram) {
            Err(error) => (lane.with_malformed(), Err(error)),
            Ok(fragment) => if lane.outdated(fragment.sequence) {
                (lane, Ok(None))
            } else if !nal_sound(fragment) {
                (
                    lane.with_malformed(),
                    Err(DcErrorView::Codec("invalid H.264 NAL fragment metadata"@)),
                )
            } else {
                lane.roomy(fragment.sequence).add(now, fragment)
            },
        }
    }
}

fn make_slots(count: usize) -> (slots: Vec<UnitSlot>)
    ensures
        slots_view(slots@) == empty_slots(count as nat),
{
    let mut slots: Vec<UnitSlot> = Vec::with_capacity(count);
    let mut index: usize = 0;
    while index < count
        invariant
            index <= count,
            slots@.len() == index,
            forall|i: int| 0 <= i < index ==> (#[trigger] slots@[i])@ == SlotView::Empty,
        decreases count - index,
    {
        slots.push(UnitSlot::Empty);
        index = index + 1;
    }
    assert(slots_view(slots@) =~= empty_slots(count as nat));
    slots
}

proof fn lemma_declared_grows(slots: Seq<SlotView>, few: int)
    requires
        0 <= few <= slots.len(),
    ensures
        declared_bytes(slots.take(few)) <= declared_bytes(slots),
    decreases slots.len() - few,
{
    if few < slots.len() {
        lemma_declared_grows(slots, few + 1);
        assert(slots.take(few + 1).drop_last() =~= slots.take(few));
    } else {
        assert(slots.take(few) =~= slots);
    }
}

/// Tells whether a unit of the given length may still be announced.
fn within_limit(slots: &Vec<UnitSlot>, unit_len: usize) -> (result: bool)
    ensures
        result == (declared_bytes(slots_view(slots@)) + unit_len <= MAX_MESSAGE_SIZE),
{
    let ghost view = slots_view(slots@);
    let mut total: usize = unit_len;
    let mut index: usize = 0;
    assert(view.take(0) =~= Seq::empty());
    while index < slots.len()
        invariant
            index <= slots@.len(),
            view == slots_view(slots@),
            total == declared_bytes(view.take(index as int)) + unit_len,
        decreases slots@.len() - index,
    {
        let bytes: usize = match &slots[index] {
            UnitSlot::Empty => 0,
            UnitSlot::Partial { total_len, .. } => *total_len,
            UnitSlot::Complete(bytes) => bytes.len(),
        };
        proof {
            assert(view[index as int] == slots@[index as int]@);
            assert(bytes == slot_bytes(view[index as int]));
            assert(view.take(index + 1).drop_last() =~= view.take(index as int));
            lemma_declared_grows(view, index + 1);
        }
        match total.checked_add(bytes) {
            Some(sum) => {
                total = sum;
            },
            None => {
                return false;
            },
        }
        index = index + 1;
    }
    assert(view.take(index as int) =~= view);
    total <= MAX_MESSAGE_SIZE
}

/// Adds a fragment to the parts of a unit.
fn grow_slot(
    total_len: usize,
    parts: Vec<Option<Vec<u8>>>,
    fragment_index: usize,
    payload: Vec<u8>,
    Ghost(fragment): Ghost<NalFragmentView>,
) -> (result: Result<UnitSlot, DcError>)
    requires
        fragment_index < parts@.len(),
        fragment.fragment_index == fragment_index,
        fragment.payload == payload@,
    ensures
        match result {
            Ok(slot) => grown_slot(total_len as nat, parts_view(parts@), fragment) == Ok::<
                SlotView,
                DcErrorView,
            >(slot@),
            Err(e) => grown_slot(total_len as nat, parts_view(parts@), fragment) == Err::<
                SlotView,
                DcErrorView,
            >(e@),
        },
{
    let mut parts = parts;
    put_part(&mut parts, fragment_index, payload);
    if !is_complete(&parts) {
        return Ok(UnitSlot::Partial { total_len, parts });
    }
    let bytes = join_parts(&parts);
    if bytes.len() != total_len {
        return Err(DcError::codec("H.264 NAL length mismatch"));
    }
    Ok(UnitSlot::Complete(bytes))
}

/// Adds a fragment to the slot of its unit.
fn fill_slot(slots: &mut Vec<UnitSlot>, fragment: NalFragment) -> (result: Result<(), DcError>)
    requires
        nal_sound(fragment@),
        fragment.unit_index < old(slots)@.len(),
    ensures
        match result {
            Ok(_) => filled_slot(slots_view(old(slots)@), fragment@) is Ok && slots_view(
                final(slots)@,
            ) == slots_view(old(slots)@).update(
                fragment.unit_index as int,
                filled_slot(slots_view(old(slots)@), fragment@)->Ok_0,
            ),
            Err(e) => filled_slot(slots_view(old(slots)@), fragment@) == Err::<
                SlotView,
                DcErrorView,
            >(e@),
        },
{
    let ghost start = slots_view(slots@);
    let at: usize = fragment.unit_index as usize;
    let ghost view = fragment@;
    assert(start[at as int] == slots@[at as int]@);
    let fits = match &slots[at] {
        UnitSlot::Empty => within_limit(slots, fragment.unit_len),
        _ => true,
    };
    if !fits {
        return Err(DcError::codec("H.264 access unit exceeds protocol limit"));
    }
    let mut slot = UnitSlot::Empty;
    std::mem::swap(&mut slots[at], &mut slot);
    let filled = match slot {
        UnitSlot::Complete(bytes) => UnitSlot::Complete(bytes),
        UnitSlot::Empty => grow_slot(
            fragment.unit_len,
            empty_parts(fragment.fragment_count as usize),
            fragment.fragment_index as usize,
            fragment.payload,
            Ghost(view),
        )?,
        UnitSlot::Partial { total_len, parts } => {
            if total_len != fragment.unit_len || parts.len() != fragment.fragment_count as usize {
                return Err(DcError::codec("H.264 NAL metadata changed"));
            }
            grow_slot(
                total_len,
                parts,
                fragment.fragment_index as usize,
                fragment.payload,
                Ghost(view),
            )?
        },
    };
    let ghost done = filled@;
    slots.set(at, filled);
    assert(slots_view(slots@) =~= start.update(at as int, done));
    Ok(())
}

/// Tells whether every unit has arrived.
fn is_whole(slots: &Vec<UnitSlot>) -> (result: bool)
    ensures
        result == all_complete(slots_view(slots@)),
{
    let ghost view = slots_view(slots@);
    let mut index: usize = 0;
    while index < slots.len()
        invariant
            index <= slots@.len(),
            view == slots_view(slots@),
            forall|i: int| 0 <= i < index ==> (#[trigger] view[i]) is Complete,
        decreases slots@.len() - index,
    {
        assert(view[index as int] == slots@[index as int]@);
        match &slots[index] {
            UnitSlot::Complete(_) => {},
            _ => {
                assert(!(view[index as int] is Complete));
                return false;
            },
        }
        index = index + 1;
    }
    true
}

/// Writes the units as a byte stream.
fn stream_bytes(slots: &Vec<UnitSlot>) -> (data: Vec<u8>)
    requires
        all_complete(slots_view(slots@)),
    ensures
        data@ == annex_b(unit_list(slots_view(slots@))),
{
    let ghost view = slots_view(slots@);
    let ghost units = unit_list(view);
    let mut data: Vec<u8> = Vec::new();
    let mut index: usize = 0;
    assert(units.take(0) =~= Seq::empty());
    while index < slots.len()
        invariant
            index <= slots@.len(),
            view == slots_view(slots@),
            units == unit_list(view),
            all_complete(view),
            data@ == annex_b(units.take(index as int)),
        decreases slots@.len() - index,
    {
        proof {
            assert(view[index as int] == slots@[index as int]@);
            assert(view[index as int] is Complete);
            assert(units.take(index + 1).drop_last() =~= units.take(index as int));
        }
        match &slots[index] {
            UnitSlot::Complete(bytes) => {
                put_unit(&mut data, bytes.as_slice());
            },
            _ => {},
        }
        index = index + 1;
    }
    assert(units.take(index as int) =~= units);
    data
}

/// Reassembles independently packetized H.264 NAL units. Each completed unit
/// is retained immediately, so later units do not depend on one monolithic
/// frame-fragment sequence. A picture is emitted only after all NAL units in
/// the access unit have arrived.
pub struct H264NalDatagramReassembler {
    frames: BTreeMap<u64, Aged<PartialNalFrame>>,
    latest_completed: Option<u64>,
    stats: VideoDatagramStats,
    started: std::time::Instant,
}

spec fn aged_view(entry: Aged<PartialNalFrame>) -> Aged<NalFrameView> {
    Aged { last: entry.last, content: entry.content@ }
}

spec fn frames_view(frames: Map<u64, Aged<PartialNalFrame>>) -> Map<u64, Aged<NalFrameView>> {
    frames.map_values(|entry: Aged<PartialNalFrame>| aged_view(entry))
}

impl View for H264NalDatagramReassembler {
    type V = NalLaneView;

    closed spec fn view(&self) -> NalLaneView {
        NalLaneView {
            frames: frames_view(self.frames@),
            latest: self.latest_completed,
            stats: self.stats,
        }
    }
}

proof fn lemma_frames_view(frames: Map<u64, Aged<PartialNalFrame>>, now: u128, sequence: u64)
    requires
        frames.dom().finite(),
    ensures
        frames_view(frames).dom() == frames.dom(),
        frames_view(frames).len() == frames.len(),
        alive(frames_view(frames), now) == frames_view(alive(frames, now)),
        alive(frames, now).dom().finite(),
        crowded(frames_view(frames), sequence) == crowded(frames, sequence),
        with_room(frames_view(frames), sequence) == frames_view(with_room(frames, sequence)),
        frames_view(frames).remove(sequence) == frames_view(frames.remove(sequence)),
{
    let view = frames_view(frames);
    assert(view.dom() =~= frames.dom());
    assert(alive(view, now) =~= frames_view(alive(frames, now)));
    frames.dom().lemma_len_filter(|sequence: u64| fresh(frames[sequence], now));
    assert(alive(frames, now).dom() =~= frames.dom().filter(
        |sequence: u64| fresh(frames[sequence], now),
    ));
    if crowded(frames, sequence) {
        lemma_oldest_exists(frames);
        lemma_oldest_exists(view);
        assert(frames.contains_key(oldest(view)));
        assert(view.contains_key(oldest(frames)));
        assert(oldest(view) == oldest(frames));
        assert(with_room(view, sequence) =~= frames_view(with_room(frames, sequence)));
    }
    assert(view.remove(sequence) =~= frames_view(frames.remove(sequence)));
}

impl H264NalDatagramReassembler {
    pub fn new() -> (lane: Self)
        ensures
            lane@.frames == Map::<u64, Aged<NalFrameView>>::empty(),
            lane@.latest is None,
            lane@.stats == no_datagrams(),
    {
        let lane = H264NalDatagramReassembler {
            frames: BTreeMap::new(),
            latest_completed: None,
            stats: VideoDatagramStats::default(),
            started: clock_now(),
        };
        assert(lane@.frames =~= Map::empty());
        lane
    }

    pub fn stats(&self) -> (result: VideoDatagramStats)
        ensures
            result == self@.stats,
    {
        self.stats
    }

    /// Pushes a datagram now.
    pub fn push(&mut self, datagram: &[u8]) -> (result: Result<Option<WireMessage>, DcError>)
        ensures
            exists|now: u128|
                final(self)@ == (#[trigger] old(self)@.push(now, datagram@)).0 && delivers(
                    result,
                    old(self)@.push(now, datagram@).1,
                ),
    {
        let now = elapsed_since(&self.started);
        self.push_at(now, datagram)
    }

    /// Pushes a datagram at the given time since the reassembler was made.
    pub fn push_at(&mut self, now: Duration, datagram: &[u8]) -> (result: Result<
        Option<WireMessage>,
        DcError,
    >)
        ensures
            final(self)@ == old(self)@.push(now.nanos, datagram@).0,
            delivers(result, old(self)@.push(now.nanos, datagram@).1),
    {
        let ghost start = self@;
        let ghost held = self.frames@;
        let removed: usize = expire(&mut self.frames, now.nanos);
        self.stats.count_incomplete(removed);
        proof {
            lemma_frames_view(held, now.nanos, 0);
            lemma_frames_view(self.frames@, now.nanos, 0);
            assert(self@ == start.expired(now.nanos));
        }
        let fragment = match parse_nal_fragment(datagram) {
            Ok(fragment) => fragment,
            Err(error) => {
                self.stats.count_malformed();
                return Err(error);
            },
        };
        let sequence: u64 = fragment.sequence;
        let outdated = match self.latest_completed {
            Some(latest) => sequence <= latest,
            None => false,
        };
        if outdated {
            return Ok(None);
        }
        if fragment.unit_count == 0 || fragment.info.codec != 1 || fragment.unit_count as usize
            > MAX_NAL_UNITS || fragment.unit_index >= fragment.unit_count
            || fragment.fragment_count == 0 || fragment.fragment_count as usize > MAX_NAL_FRAGMENTS
            || fragment.fragment_index >= fragment.fragment_count || fragment.unit_len == 0
            || fragment.unit_len > MAX_MESSAGE_SIZE || fragment.payload.len() > fragment.unit_len {
            self.stats.count_malformed();
            return Err(DcError::codec("invalid H.264 NAL fragment metadata"));
        }
        let ghost expired = self@;
        let ghost left = self.frames@;
        let evicted = make_room(&mut self.frames, sequence);
        if evicted {
            self.stats.count_incomplete(1);
        }
        proof {
            lemma_frames_view(left, now.nanos, sequence);
            assert(self@ == expired.roomy(sequence));
        }
        self.add(now.nanos, fragment)
    }

    fn add(&mut self, now: u128, fragment: NalFragment) -> (result: Result<
        Option<WireMessage>,
        DcError,
    >)
        requires
            nal_sound(fragment@),
        ensures
            final(self)@ == old(self)@.add(now, fragment@).0,
            delivers(result, old(self)@.add(now, fragment@).1),
    {
        let sequence: u64 = fragment.sequence;
        let ghost start = self@;
        let ghost held = self.frames@;
        let mut frame = match self.frames.remove(&sequence) {
            Some(entry) => entry.content,
            None => PartialNalFrame {
                info: fragment.info,
                slots: make_slots(fragment.unit_count as usize),
            },
        };
        proof {
            lemma_frames_view(held, now, sequence);
            assert(self.frames@ =~= held.remove(sequence));
            assert(self@.frames == start.frames.remove(sequence));
            assert(frame@ == start.known(fragment@));
        }
        if frame.info != fragment.info || frame.slots.len() != fragment.unit_count as usize {
            self.stats.count_malformed();
            return Err(DcError::codec("H.264 NAL frame metadata changed"));
        }
        match fill_slot(&mut frame.slots, fragment) {
            Ok(_) => {},
            Err(error) => {
                self.stats.count_malformed();
                return Err(error);
            },
        }
        if !is_whole(&frame.slots) {
            let entry = Aged { last: now, content: frame };
            self.frames.insert(sequence, entry);
            proof {
                assert(frames_view(self.frames@) =~= start.frames.insert(
                    sequence,
                    aged_view(entry),
                ));
            }
            return Ok(None);
        }
        let data = stream_bytes(&frame.slots);
        if data.len() > MAX_MESSAGE_SIZE {
            self.stats.count_malformed();
            return Err(DcError::codec("H.264 access unit exceeds protocol limit"));
        }
        self.latest_completed = Some(sequence);
        self.stats.count_completed();
        let info = frame.info;
        Ok(
            Some(
                WireMessage::Video {
                    codec: info.codec,
                    sequence,
                    timestamp_millis: info.timestamp_millis,
                    keyframe: info.keyframe,
                    width: info.width,
                    height: info.height,
                    pixel_format: info.pixel_format,
                    stride: info.stride,
                    data,
                },
            ),
        )
    }
}

impl Default for H264NalDatagramReassembler {
    fn default() -> (lane: Self)
        ensures
            lane@.frames == Map::<u64, Aged<NalFrameView>>::empty(),
            lane@.latest is None,
            lane@.stats == no_datagrams(),
    {
        H264NalDatagramReassembler::new()
    }
}

/// One fragment of one unit.
pub open spec fn nal_cut(
    sequence: u64,
    info: PictureInfo,
    units: Seq<Seq<u8>>,
    size: nat,
    unit_index: int,
    fragment_index: int,
) -> NalFragmentView {
    let unit = units[unit_index];
    NalFragmentView {
        info,
        sequence,
        unit_index: unit_index as u16,
        unit_count: units.len() as u16,
        fragment_index: fragment_index as u16,
        fragment_count: pieces(unit.len(), size) as u16,
        unit_len: unit.len(),
        payload: piece(unit, size, fragment_index as nat),
    }
}

/// The datagrams of one unit.
pub open spec fn unit_datagrams(
    sequence: u64,
    info: PictureInfo,
    units: Seq<Seq<u8>>,
    size: nat,
    unit_index: int,
) -> Seq<Seq<u8>> {
    Seq::new(
        pieces(units[unit_index].len(), size),
        |fragment_index: int|
            nal_fragment_bytes(nal_cut(sequence, info, units, size, unit_index, fragment_index)),
    )
}

/// The datagrams of the first `count` units, unit after unit.
pub open spec fn nal_datagrams(
    sequence: u64,
    info: PictureInfo,
    units: Seq<Seq<u8>>,
    size: nat,
    count: nat,
) -> Seq<Seq<u8>>
    decreases count,
{
    if count == 0 {
        Seq::empty()
    } else {
        nal_datagrams(sequence, info, units, size, (count - 1) as nat) + unit_datagrams(
            sequence,
            info,
            units,
            size,
            count - 1,
        )
    }
}

/// Why one of the first `count` units cannot be cut, if one cannot.
pub open spec fn unit_failure(units: Seq<Seq<u8>>, size: nat, count: nat) -> Option<DcErrorView>
    decreases count,
{
    if count == 0 {
        None
    } else {
        match unit_failure(units, size, (count - 1) as nat) {
            Some(error) => Some(error),
            None => if pieces(units[count - 1].len(), size) > u16::MAX {
                Some(DcErrorView::InvalidInput("H.264 NAL requires too many datagrams"@))
            } else if units[count - 1].len() > u32::MAX {
                Some(DcErrorView::InvalidInput("H.264 NAL is too large"@))
            } else {
                None
            },
        }
    }
}

/// What the fragments of a video message have in common.
pub open spec fn info_of(message: MessageView) -> PictureInfo {
    match message {
        MessageView::Video {
            codec,
            timestamp_millis,
            keyframe,
            width,
            height,
            pixel_format,
            stride,
            ..
        } => PictureInfo {
            codec,
            timestamp_millis,
            keyframe,
            width,
            height,
            pixel_format,
            stride,
        },
        _ => PictureInfo {
            codec: 0,
            timestamp_millis: 0,
            keyframe: false,
            width: 0,
            height: 0,
            pixel_format: 0,
            stride: 0,
        },
    }
}

/// Why a message cannot be sent unit by unit in datagrams of the given size, if it cannot.
pub open spec fn nal_packetize_failure(message: MessageView, max_datagram_size: nat) -> Option<
    DcErrorView,
> {
    match message {
        MessageView::Video { codec, data, .. } => if codec != 1 {
            Some(DcErrorView::InvalidInput("NAL packetization only supports H.264"@))
        } else if max_datagram_size <= NAL_HEADER_LEN {
            Some(DcErrorView::InvalidInput("QUIC datagram MTU is too small for NAL transport"@))
        } else {
            match nal_units(data) {
                Err(error) => Some(error),
                Ok(units) => if units.len() == 0 || units.len() > MAX_NAL_UNITS {
                    Some(DcErrorView::Codec("H.264 access unit has an invalid NAL count"@))
                } else {
                    unit_failure(
                        units,
                        (max_datagram_size - NAL_HEADER_LEN) as nat,
                        units.len(),
                    )
                },
            }
        },
        _ => Some(
            DcErrorView::InvalidInput("NAL packetization requires an H.264 video message"@),
        ),
    }
}

/// The datagrams of a video message, unit by unit.
pub open spec fn message_datagrams(message: MessageView, max_datagram_size: nat) -> Seq<Seq<u8>> {
    match message {
        MessageView::Video { sequence, data, .. } => {
            let units = nal_units(data)->Ok_0;
            nal_datagrams(
                sequence,
                info_of(message),
                units,
                (max_datagram_size - NAL_HEADER_LEN) as nat,
                units.len(),
            )
        },
        _ => Seq::empty(),
    }
}

fn nal_packet(
    info: &PictureInfo,
    sequence: u64,
    unit_index: u16,
    unit_count: u16,
    fragment_index: u16,
    fragment_count: u16,
    unit_len: u32,
    payload: &[u8],
) -> (packet: Vec<u8>)
    ensures
        packet@ == nal_fragment_bytes(
            NalFragmentView {
                info: *info,
                sequence,
                unit_index,
                unit_count,
                fragment_index,
                fragment_count,
                unit_len: unit_len as nat,
                payload: payload@,
            },
        ),
{
    let mut packet: Vec<u8> = Vec::with_capacity(NAL_HEADER_LEN);
    packet.push(0x44);
    packet.push(0x43);
    packet.push(0x56);
    packet.push(0x4e);
    packet.push(1);
    packet.push(info.codec);
    put_u64(&mut packet, sequence);
    put_u64(&mut packet, info.timestamp_millis);
    let ghost before = packet@;
    put_flag(&mut packet, info.keyframe);
    assert(packet@ =~= before + seq![flag_byte(info.keyframe)]);
    put_u32(&mut packet, info.width);
    put_u32(&mut packet, info.height);
    let ghost before = packet@;
    packet.push(info.pixel_format);
    assert(packet@ =~= before + seq![info.pixel_format]);
    put_u32(&mut packet, info.stride);
    put_u16(&mut packet, unit_index);
    put_u16(&mut packet, unit_count);
    put_u16(&mut packet, fragment_index);
    put_u16(&mut packet, fragment_count);
    put_u32(&mut packet, unit_len);
    put_slice(&mut packet, payload);
    packet
}

proof fn lemma_unit_failure(units: Seq<Seq<u8>>, size: nat, few: nat, many: nat)
    requires
        few <= many,
        unit_failure(units, size, few) is Some,
    ensures
        unit_failure(units, size, many) == unit_failure(units, size, few),
    decreases many,
{
    if few < many {
        lemma_unit_failure(units, size, few, (many - 1) as nat);
    }
}

/// Appends the datagrams of one unit.
fn put_unit_datagrams(
    output: &mut Vec<Vec<u8>>,
    info: &PictureInfo,
    sequence: u64,
    unit: &[u8],
    unit_index: usize,
    unit_count: usize,
    payload_size: usize,
    Ghost(units): Ghost<Seq<Seq<u8>>>,
) -> (result: Result<(), DcError>)
    requires
        payload_size > 0,
        unit_index < unit_count <= MAX_NAL_UNITS,
        units.len() == unit_count,
        units[unit_index as int] == unit@,
        unit_failure(units, payload_size as nat, unit_index as nat) is None,
    ensures
        match result {
            Ok(_) => unit_failure(units, payload_size as nat, (unit_index + 1) as nat) is None
                && buffers(final(output)@) == buffers(old(output)@) + unit_datagrams(
                sequence,
                *info,
                units,
                payload_size as nat,
                unit_index as int,
            ),
            Err(e) => unit_failure(units, payload_size as nat, (unit_index + 1) as nat) == Some(
                e@,
            ),
        },
{
    let count: usize = count_pieces(unit.len(), payload_size);
    if count > 0xffff {
        return Err(DcError::invalid_input("H.264 NAL requires too many datagrams"));
    }
    if unit.len() as u64 > 0xffff_ffff {
        return Err(DcError::invalid_input("H.264 NAL is too large"));
    }
    let ghost all = unit_datagrams(
        sequence,
        *info,
        units,
        payload_size as nat,
        unit_index as int,
    );
    let ghost start = buffers(output@);
    let mut index: usize = 0;
    assert(buffers(output@) =~= start + all.take(0));
    while index < count
        invariant
            index <= count <= 0xffff,
            payload_size > 0,
            unit_index < unit_count <= MAX_NAL_UNITS,
            units.len() == unit_count,
            units[unit_index as int] == unit@,
            unit@.len() <= 0xffff_ffff,
            count == pieces(unit@.len(), payload_size as nat),
            all == unit_datagrams(
                sequence,
                *info,
                units,
                payload_size as nat,
                unit_index as int,
            ),
            buffers(output@) == start + all.take(index as int),
        decreases count - index,
    {
        proof {
            lemma_pieces(unit@.len(), payload_size as nat, index as nat);
        }
        let begin: usize = index * payload_size;
        let end: usize = if payload_size < unit.len() - begin {
            begin + payload_size
        } else {
            unit.len()
        };
        let packet = nal_packet(
            info,
            sequence,
            unit_index as u16,
            unit_count as u16,
            index as u16,
            count as u16,
            unit.len() as u32,
            vstd::slice::slice_subrange(unit, begin, end),
        );
        let ghost before = output@;
        assert(packet@ == all[index as int]);
        output.push(packet);
        proof {
            assert(buffers(output@) =~= buffers(before).push(packet@));
            assert(all.take(index + 1) =~= all.take(index as int).push(all[index as int]));
            assert(buffers(output@) =~= start + all.take(index + 1));
        }
        index = index + 1;
    }
    assert(all.take(index as int) =~= all);
    Ok(())
}

/// Packetize an H.264 access unit at NAL/slice boundaries. Small NAL units are
/// carried whole and large units are fragmented independently.
pub fn packetize_h264_nal_message(message: &WireMessage, max_datagram_size: usize) -> (result: Result<
    Vec<Vec<u8>>,
    DcError,
>)
    ensures
        match result {
            Ok(list) => nal_packetize_failure(message@, max_datagram_size as nat) is None
                && buffers(list@) == message_datagrams(message@, max_datagram_size as nat),
            Err(e) => nal_packetize_failure(message@, max_datagram_size as nat) == Some(e@),
        },
{
    match message {
        WireMessage::Video {
            codec,
            sequence,
            timestamp_millis,
            keyframe,
            width,
            height,
            pixel_format,
            stride,
            data,
        } => {
            if *codec != 1 {
                return Err(DcError::invalid_input("NAL packetization only supports H.264"));
            }
            if max_datagram_size <= NAL_HEADER_LEN {
                return Err(
                    DcError::invalid_input("QUIC datagram MTU is too small for NAL transport"),
                );
            }
            let units = split_h264_nal_units(data.as_slice())?;
            if units.len() == 0 || units.len() > MAX_NAL_UNITS {
                return Err(DcError::codec("H.264 access unit has an invalid NAL count"));
            }
            let info = PictureInfo {
                codec: *codec,
                timestamp_millis: *timestamp_millis,
                keyframe: *keyframe,
                width: *width,
                height: *height,
                pixel_format: *pixel_format,
                stride: *stride,
            };
            let payload_size: usize = max_datagram_size - NAL_HEADER_LEN;
            let mut output: Vec<Vec<u8>> = Vec::new();
            let ghost list = contents(units@);
            let mut index: usize = 0;
            assert(buffers(output@) =~= Seq::empty());
            while index < units.len()
                invariant
                    index <= units@.len() <= MAX_NAL_UNITS,
                    payload_size > 0,
                    list == contents(units@),
                    unit_failure(list, payload_size as nat, index as nat) is None,
                    buffers(output@) == nal_datagrams(
                        *sequence,
                        info,
                        list,
                        payload_size as nat,
                        index as nat,
                    ),
                    nal_packetize_failure(message@, max_datagram_size as nat) == unit_failure(
                        list,
                        payload_size as nat,
                        list.len(),
                    ),
                decreases units@.len() - index,
            {
                let unit = units[index];
                assert(list[index as int] == unit@);
                match put_unit_datagrams(
                    &mut output,
                    &info,
                    *sequence,
                    unit,
                    index,
                    units.len(),
                    payload_size,
                    Ghost(list),
                ) {
                    Ok(_) => {},
                    Err(error) => {
                        proof {
                            lemma_unit_failure(
                                list,
                                payload_size as nat,
                                (index + 1) as nat,
                                list.len(),
                            );
                        }
                        return Err(error);
                    },
                }
                index = index + 1;
            }
            Ok(output)
        },
        _ => Err(DcError::invalid_input("NAL packetization requires an H.264 video message")),
    }
}

} // verus!
