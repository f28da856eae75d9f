//! What holds of cutting access units into datagrams unit by unit and putting them together
//! again.
use crate::bytes::{be_bytes, flag_byte, law_be_bytes_read_back, lemma_byte_range};
use crate::desktop::datagram::{
    all_arrived, kind_of, lemma_pieces, lemma_pieces_bound, nal_mark, no_datagrams, none_arrived,
    piece, pieces, with_part, VideoDatagramKind, VideoDatagramStats,
};
use crate::desktop::datagram_laws::{arrived_parts, covered, law_pieces_join};
use crate::desktop::nal_datagram::{
    all_complete, declared_bytes, empty_slots, filled_slot, info_of, message_datagrams, nal_cut,
    nal_datagrams, nal_fragment_bytes, nal_fragment_of, nal_header, nal_packetize_failure,
    nal_sound, picture_message, slot_bytes, unit_datagrams, unit_failure, unit_list,
    NalFragmentView, NalFrameView, NalLaneView, PictureInfo, SlotView, MAX_NAL_FRAGMENTS, MAX_NAL_UNITS,
    NAL_HEADER_LEN,
};
use crate::desktop::pending::{
    alive, crowded, fresh, lemma_oldest_exists, Aged, MAX_IN_FLIGHT, REASSEMBLY_TIMEOUT,
};
use crate::error::DcErrorView;
use crate::media::nal::{
    annex_b, law_split_reads_back_annex_b, nal_units, plain_unit, unit_type, whole_list,
};
use crate::protocol::types::{MessageView, MAX_MESSAGE_SIZE};
use vstd::prelude::*;

verus! {

/// A fragment with data is read back from its datagram.
pub proof fn law_nal_fragment_reads_back(fragment: NalFragmentView)
    requires
        fragment.payload.len() > 0,
        fragment.unit_len <= u32::MAX,
    ensures
        nal_fragment_of(nal_fragment_bytes(fragment)) == Ok::<NalFragmentView, DcErrorView>(
            fragment,
        ),
        nal_fragment_bytes(fragment).len() == NAL_HEADER_LEN + fragment.payload.len(),
        kind_of(nal_fragment_bytes(fragment)) == Some(VideoDatagramKind::H264Nal),
{
    lemma_byte_range();
    let info = fragment.info;
    law_be_bytes_read_back(fragment.sequence as nat, 8);
    law_be_bytes_read_back(info.timestamp_millis as nat, 8);
    law_be_bytes_read_back(info.width as nat, 4);
    law_be_bytes_read_back(info.height as nat, 4);
    law_be_bytes_read_back(info.stride as nat, 4);
    law_be_bytes_read_back(fragment.unit_index as nat, 2);
    law_be_bytes_read_back(fragment.unit_count as nat, 2);
    law_be_bytes_read_back(fragment.fragment_index as nat, 2);
    law_be_bytes_read_back(fragment.fragment_count as nat, 2);
    law_be_bytes_read_back(fragment.unit_len, 4);
    let bytes = nal_fragment_bytes(fragment);
    let header = nal_header(fragment);
    assert(header.len() == 48);
    assert(bytes.take(5) =~= nal_mark());
    assert(header.subrange(6, 14) =~= be_bytes(fragment.sequence as nat, 8));
    assert(header.subrange(14, 22) =~= be_bytes(info.timestamp_millis as nat, 8));
    assert(header[22] == flag_byte(info.keyframe));
    assert(header.subrange(23, 27) =~= be_bytes(info.width as nat, 4));
    assert(header.subrange(27, 31) =~= be_bytes(info.height as nat, 4));
    assert(header[31] == info.pixel_format);
    assert(header.subrange(32, 36) =~= be_bytes(info.stride as nat, 4));
    assert(header.subrange(36, 38) =~= be_bytes(fragment.unit_index as nat, 2));
    assert(header.subrange(38, 40) =~= be_bytes(fragment.unit_count as nat, 2));
    assert(header.subrange(40, 42) =~= be_bytes(fragment.fragment_index as nat, 2));
    assert(header.subrange(42, 44) =~= be_bytes(fragment.fragment_count as nat, 2));
    assert(header.subrange(44, 48) =~= be_bytes(fragment.unit_len, 4));
    assert(bytes.subrange(6, 14) =~= header.subrange(6, 14));
    assert(bytes.subrange(14, 22) =~= header.subrange(14, 22));
    assert(bytes.subrange(23, 27) =~= header.subrange(23, 27));
    assert(bytes.subrange(27, 31) =~= header.subrange(27, 31));
    assert(bytes.subrange(32, 36) =~= header.subrange(32, 36));
    assert(bytes.subrange(36, 38) =~= header.subrange(36, 38));
    assert(bytes.subrange(38, 40) =~= header.subrange(38, 40));
    assert(bytes.subrange(40, 42) =~= header.subrange(40, 42));
    assert(bytes.subrange(42, 44) =~= header.subrange(42, 44));
    assert(bytes.subrange(44, 48) =~= header.subrange(44, 48));
    assert(bytes.skip(48) =~= fragment.payload);
}

proof fn lemma_no_unit_failure(units: Seq<Seq<u8>>, size: nat, count: nat, index: int)
    requires
        unit_failure(units, size, count) is None,
        0 <= index < count,
    ensures
        pieces(units[index].len(), size) <= u16::MAX,
        units[index].len() <= u32::MAX,
    decreases count,
{
    if index < count - 1 {
        lemma_no_unit_failure(units, size, (count - 1) as nat, index);
    }
}

proof fn lemma_datagrams_fit(
    sequence: u64,
    info: PictureInfo,
    units: Seq<Seq<u8>>,
    size: nat,
    count: nat,
)
    requires
        size > 0,
        count <= units.len(),
        unit_failure(units, size, count) is None,
    ensures
        forall|i: int|
            0 <= i < nal_datagrams(sequence, info, units, size, count).len() ==> {
                &&& (#[trigger] nal_datagrams(sequence, info, units, size, count)[i]).len()
                    <= size + NAL_HEADER_LEN
                &&& kind_of(nal_datagrams(sequence, info, units, size, count)[i]) == Some(
                    VideoDatagramKind::H264Nal,
                )
            },
    decreases count,
{
    if count > 0 {
        let last = count - 1;
        lemma_datagrams_fit(sequence, info, units, size, last as nat);
        let before = nal_datagrams(sequence, info, units, size, last as nat);
        let more = unit_datagrams(sequence, info, units, size, last);
        let all = nal_datagrams(sequence, info, units, size, count);
        assert forall|i: int| 0 <= i < all.len() implies (#[trigger] all[i]).len() <= size
            + NAL_HEADER_LEN && kind_of(all[i]) == Some(VideoDatagramKind::H264Nal) by {
            if i < before.len() {
                assert(all[i] == before[i]);
            } else {
                let k = i - before.len();
                assert(all[i] == more[k]);
                lemma_no_unit_failure(units, size, count, last);
                lemma_pieces(units[last].len(), size, k as nat);
                law_nal_fragment_reads_back(nal_cut(sequence, info, units, size, last, k));
            }
        }
    }
}

/// Every datagram of an access unit fits the size it was cut for, and is recognised by its
/// envelope.
pub proof fn law_nal_datagrams_fit(message: MessageView, max_datagram_size: nat, index: int)
    requires
        nal_packetize_failure(message, max_datagram_size) is None,
        0 <= index < message_datagrams(message, max_datagram_size).len(),
    ensures
        message_datagrams(message, max_datagram_size)[index].len() <= max_datagram_size,
        kind_of(message_datagrams(message, max_datagram_size)[index]) == Some(
            VideoDatagramKind::H264Nal,
        ),
{
    if let MessageView::Video { sequence, data, .. } = message {
        let units = nal_units(data)->Ok_0;
        lemma_datagrams_fit(
            sequence,
            info_of(message),
            units,
            (max_datagram_size - NAL_HEADER_LEN) as nat,
            units.len(),
        );
    }
}

proof fn lemma_alive<T>(frames: Map<u64, Aged<T>>, now: u128)
    requires
        frames.dom().finite(),
    ensures
        alive(frames, now).dom().finite(),
        alive(frames, now).len() <= frames.len(),
        forall|sequence: u64| #[trigger]
            alive(frames, now).contains_key(sequence) <==> frames.contains_key(sequence) && fresh(
                frames[sequence],
                now,
            ),
{
    frames.dom().lemma_len_filter(|sequence: u64| fresh(frames[sequence], now));
    assert(alive(frames, now).dom() =~= frames.dom().filter(
        |sequence: u64| fresh(frames[sequence], now),
    ));
}

/// A reassembler never holds more than a fixed number of incomplete access units.
pub proof fn law_nal_frames_in_flight_are_bounded(
    lane: NalLaneView,
    now: u128,
    datagram: Seq<u8>,
)
    requires
        lane.frames.dom().finite(),
        lane.frames.len() <= MAX_IN_FLIGHT,
    ensures
        lane.push(now, datagram).0.frames.dom().finite(),
        lane.push(now, datagram).0.frames.len() <= MAX_IN_FLIGHT,
{
    let expired = lane.expired(now);
    lemma_alive(lane.frames, now);
    if let Ok(fragment) = nal_fragment_of(datagram) {
        let sequence = fragment.sequence;
        let roomy = expired.roomy(sequence);
        if crowded(expired.frames, sequence) {
            lemma_oldest_exists(expired.frames);
        }
        assert(roomy.frames.dom().finite());
        assert(roomy.frames.contains_key(sequence) ==> roomy.frames.len() <= MAX_IN_FLIGHT);
        assert(!roomy.frames.contains_key(sequence) ==> roomy.frames.len() < MAX_IN_FLIGHT);
    }
}

/// Access units are delivered in increasing order of their sequence numbers, each at most once.
pub proof fn law_nal_deliveries_increase(lane: NalLaneView, now: u128, datagram: Seq<u8>)
    ensures
        ({
            let (after, delivery) = lane.push(now, datagram);
            match delivery {
                Ok(Some(message)) => {
                    &&& message matches MessageView::Video { sequence, .. }
                    &&& after.latest == Some(sequence)
                    &&& !lane.outdated(sequence)
                    &&& after.outdated(sequence)
                },
                _ => after.latest == lane.latest,
            }
        }),
{
}

/// An access unit of which a fragment is missing does not hold up any other: a fragment leaves
/// every other access unit as it is, unless that one has stalled or had to make room.
pub proof fn law_nal_other_frames_are_untouched(
    lane: NalLaneView,
    now: u128,
    datagram: Seq<u8>,
    other: u64,
)
    requires
        lane.frames.dom().finite(),
        lane.frames.contains_key(other),
        fresh(lane.frames[other], now),
        lane.expired(now).frames.len() < MAX_IN_FLIGHT,
        nal_fragment_of(datagram) matches Ok(fragment) ==> fragment.sequence != other,
    ensures
        lane.push(now, datagram).0.frames.contains_key(other),
        lane.push(now, datagram).0.frames[other] == lane.frames[other],
{
    lemma_alive(lane.frames, now);
}

/// The number of bytes in a list of units.
pub open spec fn total_bytes(units: Seq<Seq<u8>>) -> nat
    decreases units.len(),
{
    if units.len() == 0 {
        0
    } else {
        total_bytes(units.drop_last()) + units.last().len()
    }
}

/// The units can be sent and collected: they hold data and keep within the limits of a receiver.
pub open spec fn transferable(units: Seq<Seq<u8>>, size: nat) -> bool {
    &&& size > 0
    &&& 0 < units.len() <= MAX_NAL_UNITS
    &&& annex_b(units).len() <= MAX_MESSAGE_SIZE
    &&& forall|u: int|
        0 <= u < units.len() ==> {
            &&& 0 < (#[trigger] units[u]).len() <= MAX_MESSAGE_SIZE
            &&& pieces(units[u].len(), size) <= MAX_NAL_FRAGMENTS
        }
}

/// The fragments of one unit among those that have arrived.
pub open spec fn arrived_of(arrived: Set<(int, int)>, unit: int) -> Set<int> {
    Set::new(|fragment: int| arrived.contains((unit, fragment)))
}

/// Every fragment of one unit has arrived.
pub open spec fn unit_covered(
    units: Seq<Seq<u8>>,
    size: nat,
    arrived: Set<(int, int)>,
    unit: int,
) -> bool {
    covered(units[unit], size, arrived_of(arrived, unit))
}

/// Some fragment of one unit has arrived.
pub open spec fn unit_begun(
    units: Seq<Seq<u8>>,
    size: nat,
    arrived: Set<(int, int)>,
    unit: int,
) -> bool {
    exists|fragment: int|
        0 <= fragment < pieces(units[unit].len(), size) && #[trigger] arrived.contains(
            (unit, fragment),
        )
}

/// The slot of a unit of which the given fragments have arrived.
pub open spec fn arrived_slot(
    units: Seq<Seq<u8>>,
    size: nat,
    arrived: Set<(int, int)>,
    unit: int,
) -> SlotView {
    if unit_covered(units, size, arrived, unit) {
        SlotView::Complete(units[unit])
    } else if unit_begun(units, size, arrived, unit) {
        SlotView::Partial {
            total_len: units[unit].len(),
            parts: arrived_parts(units[unit], size, arrived_of(arrived, unit)),
        }
    } else {
        SlotView::Empty
    }
}

/// The slots of an access unit of which the given fragments have arrived.
pub open spec fn arrived_slots(
    units: Seq<Seq<u8>>,
    size: nat,
    arrived: Set<(int, int)>,
) -> Seq<SlotView> {
    Seq::new(units.len(), |unit: int| arrived_slot(units, size, arrived, unit))
}

/// Every fragment of every unit has arrived.
pub open spec fn all_covered(
    units: Seq<Seq<u8>>,
    size: nat,
    arrived: Set<(int, int)>,
) -> bool {
    forall|unit: int|
        0 <= unit < units.len() ==> #[trigger] unit_covered(units, size, arrived, unit)
}

/// The lane is collecting an access unit and holds exactly the fragments in `arrived`; the last
/// of them came recently.
pub open spec fn nal_collecting(
    lane: NalLaneView,
    sequence: u64,
    info: PictureInfo,
    units: Seq<Seq<u8>>,
    size: nat,
    arrived: Set<(int, int)>,
    now: u128,
) -> bool {
    &&& lane.frames.dom().finite()
    &&& !lane.outdated(sequence)
    &&& if lane.frames.contains_key(sequence) {
        let entry = lane.frames[sequence];
        &&& fresh(entry, now)
        &&& entry.content.info == info
        &&& entry.content.slots == arrived_slots(units, size, arrived)
    } else {
        arrived == Set::<(int, int)>::empty()
    }
}

/// The announced bytes never exceed those of the units, less those of a unit of which nothing
/// has arrived.
proof fn lemma_declared_bound(units: Seq<Seq<u8>>, slots: Seq<SlotView>, unit: int)
    requires
        slots.len() == units.len(),
        forall|i: int|
            0 <= i < units.len() ==> slot_bytes(#[trigger] slots[i]) <= units[i].len(),
        -1 <= unit < units.len(),
        unit >= 0 ==> slots[unit] == SlotView::Empty,
    ensures
        declared_bytes(slots) + (if unit >= 0 {
            units[unit].len()
        } else {
            0
        }) <= total_bytes(units),
    decreases units.len(),
{
    if units.len() > 0 {
        let last = units.len() - 1;
        let few = units.drop_last();
        let front = slots.drop_last();
        assert forall|i: int| 0 <= i < few.len() implies slot_bytes(#[trigger] front[i])
            <= few[i].len() by {
            assert(front[i] == slots[i]);
        }
        assert(slot_bytes(slots[last]) <= units[last].len());
        if unit == last {
            lemma_declared_bound(few, front, -1);
        } else {
            lemma_declared_bound(few, front, unit);
        }
    }
}

proof fn lemma_total_below_stream(units: Seq<Seq<u8>>)
    ensures
        total_bytes(units) <= annex_b(units).len(),
    decreases units.len(),
{
    if units.len() > 0 {
        lemma_total_below_stream(units.drop_last());
    }
}

/// The slot of a unit after one more of its fragments has arrived.
proof fn lemma_slot_filled(
    sequence: u64,
    info: PictureInfo,
    units: Seq<Seq<u8>>,
    size: nat,
    arrived: Set<(int, int)>,
    unit: int,
    fragment: int,
)
    requires
        transferable(units, size),
        0 <= unit < units.len(),
        0 <= fragment < pieces(units[unit].len(), size),
    ensures
        filled_slot(
            arrived_slots(units, size, arrived),
            nal_cut(sequence, info, units, size, unit, fragment),
        ) == Ok::<SlotView, DcErrorView>(
            arrived_slot(units, size, arrived.insert((unit, fragment)), unit),
        ),
{
    let slots = arrived_slots(units, size, arrived);
    let cut = nal_cut(sequence, info, units, size, unit, fragment);
    let more = arrived.insert((unit, fragment));
    let bytes = units[unit];
    assert(bytes.len() > 0);
    assert(slots[unit] == arrived_slot(units, size, arrived, unit));
    assert(arrived_of(more, unit) =~= arrived_of(arrived, unit).insert(fragment));
    assert(more.contains((unit, fragment)));
    assert(unit_begun(units, size, more, unit));
    if unit_covered(units, size, arrived, unit) {
        assert(unit_covered(units, size, more, unit)) by {
            assert forall|i: int| 0 <= i < pieces(bytes.len(), size) implies
                #[trigger] arrived_of(more, unit).contains(i) by {
                assert(arrived_of(arrived, unit).contains(i));
            }
        }
    } else {
        let parts = if unit_begun(units, size, arrived, unit) {
            arrived_parts(bytes, size, arrived_of(arrived, unit))
        } else {
            none_arrived(pieces(bytes.len(), size))
        };
        assert(parts =~= arrived_parts(bytes, size, arrived_of(arrived, unit))) by {
            if !unit_begun(units, size, arrived, unit) {
                assert forall|i: int| 0 <= i < parts.len() implies parts[i] == arrived_parts(
                    bytes,
                    size,
                    arrived_of(arrived, unit),
                )[i] by {
                    assert(!arrived.contains((unit, i)));
                }
            }
        }
        let grown = with_part(parts, fragment, cut.payload);
        assert(grown =~= arrived_parts(bytes, size, arrived_of(more, unit)));
        if unit_covered(units, size, more, unit) {
            assert forall|i: int| 0 <= i < grown.len() implies (#[trigger] grown[i]) is Some by {
                assert(arrived_of(more, unit).contains(i));
            }
            law_pieces_join(bytes, size);
            assert(grown =~= Seq::new(
                pieces(bytes.len(), size),
                |i: int| Some(piece(bytes, size, i as nat)),
            ));
        } else {
            let missing = choose|i: int|
                0 <= i < pieces(bytes.len(), size) && !#[trigger] arrived_of(more, unit).contains(
                    i,
                );
            assert(grown[missing] is None);
            assert(!all_arrived(grown));
        }
        if !unit_begun(units, size, arrived, unit) {
            assert(slots[unit] == SlotView::Empty);
            assert forall|i: int| 0 <= i < units.len() implies slot_bytes(#[trigger] slots[i])
                <= units[i].len() by {
                assert(slots[i] == arrived_slot(units, size, arrived, i));
            }
            lemma_declared_bound(units, slots, unit);
            lemma_total_below_stream(units);
        }
    }
}

/// One more fragment of an access unit that is being collected: where it is the last one the
/// access unit is delivered as a byte stream of its units, else it is kept.
pub proof fn law_nal_fragment_is_collected(
    sequence: u64,
    info: PictureInfo,
    units: Seq<Seq<u8>>,
    size: nat,
    lane: NalLaneView,
    arrived: Set<(int, int)>,
    unit: int,
    fragment: int,
    now: u128,
)
    requires
        transferable(units, size),
        info.codec == 1,
        0 <= unit < units.len(),
        0 <= fragment < pieces(units[unit].len(), size),
        nal_collecting(lane, sequence, info, units, size, arrived, now),
    ensures
        ({
            let (after, delivery) = lane.push(
                now,
                unit_datagrams(sequence, info, units, size, unit)[fragment],
            );
            let more = arrived.insert((unit, fragment));
            if all_covered(units, size, more) {
                &&& delivery == Ok::<Option<MessageView>, DcErrorView>(
                    Some(picture_message(sequence, info, annex_b(units))),
                )
                &&& after.latest == Some(sequence)
                &&& !after.frames.contains_key(sequence)
            } else {
                &&& delivery == Ok::<Option<MessageView>, DcErrorView>(None)
                &&& nal_collecting(after, sequence, info, units, size, more, now)
                &&& after.frames.contains_key(sequence)
                &&& after.frames[sequence].last == now
            }
        }),
{
    let cut = nal_cut(sequence, info, units, size, unit, fragment);
    let more = arrived.insert((unit, fragment));
    assert(units[unit].len() > 0);
    lemma_pieces(units[unit].len(), size, fragment as nat);
    law_nal_fragment_reads_back(cut);
    assert(nal_sound(cut));
    let expired = lane.expired(now);
    lemma_alive(lane.frames, now);
    if crowded(expired.frames, sequence) {
        lemma_oldest_exists(expired.frames);
    }
    let roomy = expired.roomy(sequence);
    assert(roomy.frames.dom().finite());
    let known = roomy.known(cut);
    let slots = arrived_slots(units, size, arrived);
    assert(known.info == info);
    assert(known.slots =~= slots) by {
        if !roomy.frames.contains_key(sequence) {
            assert forall|u: int| 0 <= u < units.len() implies empty_slots(units.len())[u]
                == slots[u] by {
                assert(!unit_begun(units, size, arrived, u));
                assert(units[u].len() > 0);
                lemma_pieces_bound(units[u].len(), size);
                assert(!arrived_of(arrived, u).contains(0));
                assert(!unit_covered(units, size, arrived, u));
            }
        }
    }
    lemma_slot_filled(sequence, info, units, size, arrived, unit, fragment);
    let slot = arrived_slot(units, size, more, unit);
    let after_slots = known.slots.update(unit, slot);
    assert(after_slots =~= arrived_slots(units, size, more)) by {
        assert forall|u: int| 0 <= u < units.len() implies after_slots[u] == arrived_slots(
            units,
            size,
            more,
        )[u] by {
            if u != unit {
                assert(arrived_of(more, u) =~= arrived_of(arrived, u));
                assert(unit_begun(units, size, more, u) == unit_begun(units, size, arrived, u)) by {
                    if unit_begun(units, size, more, u) {
                        let f = choose|f: int|
                            0 <= f < pieces(units[u].len(), size) && #[trigger] more.contains(
                                (u, f),
                            );
                        assert(arrived.contains((u, f)));
                    }
                    if unit_begun(units, size, arrived, u) {
                        let f = choose|f: int|
                            0 <= f < pieces(units[u].len(), size) && #[trigger] arrived.contains(
                                (u, f),
                            );
                        assert(more.contains((u, f)));
                    }
                }
            }
        }
    }
    if all_covered(units, size, more) {
        assert forall|u: int| 0 <= u < after_slots.len() implies (
        #[trigger] after_slots[u]) is Complete by {
            assert(unit_covered(units, size, more, u));
        }
        assert(unit_list(after_slots) =~= units) by {
            assert forall|u: int| 0 <= u < units.len() implies unit_list(after_slots)[u]
                == units[u] by {
                assert(unit_covered(units, size, more, u));
            }
        }
    } else {
        let missing = choose|u: int|
            0 <= u < units.len() && !#[trigger] unit_covered(units, size, more, u);
        assert(!(after_slots[missing] is Complete));
        assert(!all_complete(after_slots));
    }
}

/// The lane after the first `count` fragments were pushed, in the given order and at the given
/// times. A fragment is named by its unit and by its place in the unit.
pub open spec fn after_nal_pushes(
    lane: NalLaneView,
    sequence: u64,
    info: PictureInfo,
    units: Seq<Seq<u8>>,
    size: nat,
    order: Seq<(int, int)>,
    times: Seq<u128>,
    count: nat,
) -> NalLaneView
    decreases count,
{
    if count == 0 {
        lane
    } else {
        let last = count - 1;
        after_nal_pushes(lane, sequence, info, units, size, order, times, last as nat).push(
            times[last],
            unit_datagrams(sequence, info, units, size, order[last].0)[order[last].1],
        ).0
    }
}

/// Every entry of the order names a fragment.
pub open spec fn names_fragments(
    units: Seq<Seq<u8>>,
    size: nat,
    order: Seq<(int, int)>,
) -> bool {
    forall|i: int|
        0 <= i < order.len() ==> {
            &&& 0 <= (#[trigger] order[i]).0 < units.len()
            &&& 0 <= order[i].1 < pieces(units[order[i].0].len(), size)
        }
}

proof fn lemma_take_grows(order: Seq<(int, int)>, last: int)
    requires
        0 <= last < order.len(),
    ensures
        order.take(last + 1).to_set() =~= order.take(last).to_set().insert(order[last]),
{
    let more = order.take(last + 1);
    let few = order.take(last);
    assert(more =~= few.push(order[last]));
    assert forall|i: (int, int)| more.to_set().contains(i) <==> few.to_set().insert(
        order[last],
    ).contains(i) by {
        if few.contains(i) {
            let k = choose|k: int| 0 <= k < few.len() && few[k] == i;
            assert(more[k] == i);
        }
        if i == order[last] {
            assert(more[last] == i);
        }
        if more.contains(i) {
            let k = choose|k: int| 0 <= k < more.len() && more[k] == i;
            if k < last {
                assert(few[k] == i);
            }
        }
    }
}

/// With fewer fragments, no more is covered.
proof fn lemma_not_covered(
    units: Seq<Seq<u8>>,
    size: nat,
    few: Set<(int, int)>,
    many: Set<(int, int)>,
)
    requires
        forall|f: (int, int)| #[trigger] few.contains(f) ==> many.contains(f),
        !all_covered(units, size, many),
    ensures
        !all_covered(units, size, few),
{
    let unit = choose|u: int|
        0 <= u < units.len() && !#[trigger] unit_covered(units, size, many, u);
    let missing = choose|i: int|
        0 <= i < pieces(units[unit].len(), size) && !#[trigger] arrived_of(many, unit).contains(i);
    assert(!few.contains((unit, missing)));
    assert(!arrived_of(few, unit).contains(missing));
    assert(!unit_covered(units, size, few, unit));
}

proof fn lemma_nal_collecting_prefix(
    sequence: u64,
    info: PictureInfo,
    units: Seq<Seq<u8>>,
    size: nat,
    lane: NalLaneView,
    order: Seq<(int, int)>,
    times: Seq<u128>,
    count: nat,
)
    requires
        transferable(units, size),
        info.codec == 1,
        lane.frames.dom().finite(),
        !lane.outdated(sequence),
        !lane.frames.contains_key(sequence),
        names_fragments(units, size, order),
        times.len() == order.len(),
        forall|i: int|
            0 < i < times.len() ==> #[trigger] times[i] <= times[i - 1] + REASSEMBLY_TIMEOUT,
        count < order.len(),
        !all_covered(units, size, order.take(count as int).to_set()),
    ensures
        nal_collecting(
            after_nal_pushes(lane, sequence, info, units, size, order, times, count),
            sequence,
            info,
            units,
            size,
            order.take(count as int).to_set(),
            times[count as int],
        ),
    decreases count,
{
    let arrived = order.take(count as int).to_set();
    if count == 0 {
        assert(arrived =~= Set::<(int, int)>::empty());
    } else {
        let last = (count - 1) as nat;
        let before = order.take(last as int).to_set();
        lemma_take_grows(order, last as int);
        assert(arrived =~= before.insert(order[last as int]));
        lemma_not_covered(units, size, before, arrived);
        lemma_nal_collecting_prefix(sequence, info, units, size, lane, order, times, last);
        law_nal_fragment_is_collected(
            sequence,
            info,
            units,
            size,
            after_nal_pushes(lane, sequence, info, units, size, order, times, last),
            before,
            order[last as int].0,
            order[last as int].1,
            times[last as int],
        );
        assert(times[count as int] <= times[count as int - 1] + REASSEMBLY_TIMEOUT);
    }
}

/// An access unit cut unit by unit is put together again in whatever order the fragments arrive,
/// repeated or not, as long as delivery does not stall: the fragment that completes it delivers
/// the byte stream of its units, and none before delivers anything.
pub proof fn law_any_order_delivers_the_access_unit(
    sequence: u64,
    info: PictureInfo,
    units: Seq<Seq<u8>>,
    size: nat,
    lane: NalLaneView,
    order: Seq<(int, int)>,
    times: Seq<u128>,
)
    requires
        transferable(units, size),
        info.codec == 1,
        lane.frames.dom().finite(),
        !lane.outdated(sequence),
        !lane.frames.contains_key(sequence),
        names_fragments(units, size, order),
        times.len() == order.len(),
        forall|i: int|
            0 < i < times.len() ==> #[trigger] times[i] <= times[i - 1] + REASSEMBLY_TIMEOUT,
        order.len() > 0,
        !all_covered(units, size, order.drop_last().to_set()),
        all_covered(units, size, order.to_set()),
    ensures
        forall|k: int|
            #![trigger order[k]]
            0 <= k < order.len() ==> after_nal_pushes(
                lane,
                sequence,
                info,
                units,
                size,
                order,
                times,
                k as nat,
            ).push(
                times[k],
                unit_datagrams(sequence, info, units, size, order[k].0)[order[k].1],
            ).1 == Ok::<Option<MessageView>, DcErrorView>(
                if k == order.len() - 1 {
                    Some(picture_message(sequence, info, annex_b(units)))
                } else {
                    None
                },
            ),
{
    assert forall|k: int| #![trigger order[k]] 0 <= k < order.len() implies after_nal_pushes(
        lane,
        sequence,
        info,
        units,
        size,
        order,
        times,
        k as nat,
    ).push(times[k], unit_datagrams(sequence, info, units, size, order[k].0)[order[k].1]).1 == Ok::<
        Option<MessageView>,
        DcErrorView,
    >(
        if k == order.len() - 1 {
            Some(picture_message(sequence, info, annex_b(units)))
        } else {
            None
        },
    ) by {
        let arrived = order.take(k).to_set();
        let next = arrived.insert(order[k]);
        let all = order.drop_last();
        lemma_take_grows(order, k);
        assert forall|f: (int, int)| #[trigger] arrived.contains(f) implies all.to_set().contains(
            f,
        ) by {
            let j = choose|j: int| 0 <= j < order.take(k).len() && order.take(k)[j] == f;
            assert(all[j] == f);
        }
        lemma_not_covered(units, size, arrived, all.to_set());
        lemma_nal_collecting_prefix(sequence, info, units, size, lane, order, times, k as nat);
        law_nal_fragment_is_collected(
            sequence,
            info,
            units,
            size,
            after_nal_pushes(lane, sequence, info, units, size, order, times, k as nat),
            arrived,
            order[k].0,
            order[k].1,
            times[k],
        );
        if k == order.len() - 1 {
            assert(order.take(k + 1) =~= order);
            assert(next =~= order.to_set());
        } else {
            assert forall|f: (int, int)| #[trigger] next.contains(f) implies all.to_set().contains(
                f,
            ) by {
                if f == order[k] {
                    assert(all[k] == f);
                }
            }
            lemma_not_covered(units, size, next, all.to_set());
        }
    }
}

/// What is delivered is the message that was sent, where its data is a byte stream with four-byte
/// start codes. A stream whose first unit has type zero is left out where its bytes also make a
/// list of units behind lengths.
pub proof fn law_delivered_access_unit_is_the_message(message: MessageView, units: Seq<Seq<u8>>)
    requires
        message matches MessageView::Video { data, .. } && data == annex_b(units),
        units.len() > 0,
        forall|i: int| 0 <= i < units.len() ==> plain_unit(#[trigger] units[i]),
        unit_type(units[0]) != 0 || !whole_list(annex_b(units)),
    ensures
        ({
            let sequence = message->Video_sequence;
            let data = message->Video_data;
            &&& nal_units(data) == Ok::<Seq<Seq<u8>>, DcErrorView>(units)
            &&& picture_message(
                sequence,
                info_of(message),
                annex_b(nal_units(data)->Ok_0),
            ) == message
        }),
{
    law_split_reads_back_annex_b(units);
}

/// A lane on which nothing has arrived.
pub open spec fn new_nal_lane() -> NalLaneView {
    NalLaneView {
        frames: Map::<u64, Aged<NalFrameView>>::empty(),
        latest: None,
        stats: no_datagrams(),
    }
}

/// What a new lane becomes by the given fragments of one access unit, the last of which came at
/// the given time: it holds what has arrived until that is all of it, and counts one completed
/// frame from then on.
pub open spec fn nal_lane_with(
    sequence: u64,
    info: PictureInfo,
    units: Seq<Seq<u8>>,
    size: nat,
    arrived: Set<(int, int)>,
    last: u128,
) -> NalLaneView {
    if all_covered(units, size, arrived) {
        NalLaneView {
            latest: Some(sequence),
            stats: VideoDatagramStats { completed_frames: 1, ..no_datagrams() },
            ..new_nal_lane()
        }
    } else if arrived == Set::<(int, int)>::empty() {
        new_nal_lane()
    } else {
        let content = NalFrameView { info, slots: arrived_slots(units, size, arrived) };
        NalLaneView {
            frames: Map::<u64, Aged<NalFrameView>>::empty().insert(
                sequence,
                Aged { last, content },
            ),
            ..new_nal_lane()
        }
    }
}

/// One fragment of the only access unit on a lane: the fragment that completes it delivers it,
/// and a fragment that comes before or after delivers nothing.
proof fn lemma_lone_access_unit(
    sequence: u64,
    info: PictureInfo,
    units: Seq<Seq<u8>>,
    size: nat,
    arrived: Set<(int, int)>,
    place: (int, int),
    last: u128,
    now: u128,
)
    requires
        transferable(units, size),
        info.codec == 1,
        0 <= place.0 < units.len(),
        0 <= place.1 < pieces(units[place.0].len(), size),
        now <= last + REASSEMBLY_TIMEOUT,
    ensures
        ({
            let more = arrived.insert(place);
            nal_lane_with(sequence, info, units, size, arrived, last).push(
                now,
                unit_datagrams(sequence, info, units, size, place.0)[place.1],
            ) == (
                nal_lane_with(sequence, info, units, size, more, now),
                Ok::<Option<MessageView>, DcErrorView>(
                    if !all_covered(units, size, arrived) && all_covered(units, size, more) {
                        Some(picture_message(sequence, info, annex_b(units)))
                    } else {
                        None
                    },
                ),
            )
        }),
{
    let more = arrived.insert(place);
    let lane = nal_lane_with(sequence, info, units, size, arrived, last);
    let cut = nal_cut(sequence, info, units, size, place.0, place.1);
    let datagram = unit_datagrams(sequence, info, units, size, place.0)[place.1];
    assert(units[place.0].len() > 0);
    lemma_pieces(units[place.0].len(), size, place.1 as nat);
    law_nal_fragment_reads_back(cut);
    assert(nal_fragment_of(datagram) == Ok::<NalFragmentView, DcErrorView>(cut));
    assert(nal_sound(cut));
    assert(alive(lane.frames, now) =~= lane.frames);
    assert(lane.expired(now) == lane);
    assert(lane.frames.len() <= 1);
    assert(more.contains(place));
    if all_covered(units, size, arrived) {
        if !all_covered(units, size, more) {
            lemma_not_covered(units, size, arrived, more);
        }
    } else {
        assert(lane.roomy(sequence) == lane);
        assert(nal_collecting(lane, sequence, info, units, size, arrived, now));
        law_nal_fragment_is_collected(
            sequence,
            info,
            units,
            size,
            lane,
            arrived,
            place.0,
            place.1,
            now,
        );
        let (after, _) = lane.push(now, datagram);
        assert(after == lane.add(now, cut).0);
        assert(after.frames =~= nal_lane_with(sequence, info, units, size, more, now).frames);
    }
}

/// Where the datagrams of the first `count` units come from: each as its unit and its place in
/// the unit.
pub open spec fn places(units: Seq<Seq<u8>>, size: nat, count: nat) -> Seq<(int, int)>
    decreases count,
{
    if count == 0 {
        Seq::empty()
    } else {
        places(units, size, (count - 1) as nat) + Seq::new(
            pieces(units[count - 1].len(), size),
            |fragment: int| (count - 1, fragment),
        )
    }
}

/// The datagrams of a list of units are the fragments of the units, each of them once.
proof fn lemma_places(
    sequence: u64,
    info: PictureInfo,
    units: Seq<Seq<u8>>,
    size: nat,
    count: nat,
)
    requires
        count <= units.len(),
    ensures
        places(units, size, count).len() == nal_datagrams(sequence, info, units, size, count).len(),
        forall|i: int|
            0 <= i < places(units, size, count).len() ==> {
                let place = #[trigger] places(units, size, count)[i];
                &&& 0 <= place.0 < count
                &&& 0 <= place.1 < pieces(units[place.0].len(), size)
                &&& nal_datagrams(sequence, info, units, size, count)[i] == unit_datagrams(
                    sequence,
                    info,
                    units,
                    size,
                    place.0,
                )[place.1]
            },
        forall|unit: int, fragment: int|
            0 <= unit < count && 0 <= fragment < pieces(units[unit].len(), size)
                ==> #[trigger] places(units, size, count).contains((unit, fragment)),
        places(units, size, count).no_duplicates(),
    decreases count,
{
    if count > 0 {
        let last = count - 1;
        lemma_places(sequence, info, units, size, last as nat);
        let before = places(units, size, last as nat);
        let row = Seq::new(
            pieces(units[last].len(), size),
            |fragment: int| (last, fragment),
        );
        let all = places(units, size, count);
        let sent = nal_datagrams(sequence, info, units, size, last as nat);
        let more = unit_datagrams(sequence, info, units, size, last);
        assert forall|i: int| 0 <= i < all.len() implies {
            let place = #[trigger] all[i];
            &&& 0 <= place.0 < count
            &&& 0 <= place.1 < pieces(units[place.0].len(), size)
            &&& nal_datagrams(sequence, info, units, size, count)[i] == unit_datagrams(
                sequence,
                info,
                units,
                size,
                place.0,
            )[place.1]
        } by {
            if i < before.len() {
                assert(all[i] == before[i]);
                assert((sent + more)[i] == sent[i]);
            } else {
                assert(all[i] == row[i - before.len()]);
                assert((sent + more)[i] == more[i - sent.len()]);
            }
        }
        assert forall|unit: int, fragment: int|
            0 <= unit < count && 0 <= fragment < pieces(units[unit].len(), size) implies
            #[trigger] all.contains((unit, fragment)) by {
            if unit < last {
                assert(before.contains((unit, fragment)));
                let i = choose|i: int| 0 <= i < before.len() && before[i] == (unit, fragment);
                assert(all[i] == (unit, fragment));
            } else {
                assert(all[before.len() + fragment] == row[fragment]);
            }
        }
        assert forall|i: int, j: int| 0 <= i < all.len() && 0 <= j < all.len() && i != j implies
            all[i] != all[j] by {
            if i < before.len() {
                assert(all[i] == before[i]);
            } else {
                assert(all[i] == row[i - before.len()]);
            }
            if j < before.len() {
                assert(all[j] == before[j]);
            } else {
                assert(all[j] == row[j - before.len()]);
            }
        }
    }
}

/// Every one of the first `count` numbers is in the list.
pub open spec fn holds_all(list: Seq<int>, count: nat) -> bool {
    forall|i: int| 0 <= i < count ==> #[trigger] list.contains(i)
}

/// The fragments that a list of datagram numbers stands for.
spec fn arrived_places(units: Seq<Seq<u8>>, size: nat, list: Seq<int>) -> Set<(int, int)> {
    list.map_values(|i: int| places(units, size, units.len())[i]).to_set()
}

/// All datagrams are in the list exactly where every fragment of every unit is.
proof fn lemma_all_places(
    sequence: u64,
    info: PictureInfo,
    units: Seq<Seq<u8>>,
    size: nat,
    list: Seq<int>,
)
    requires
        forall|i: int|
            0 <= i < list.len() ==> 0 <= #[trigger] list[i] < places(
                units,
                size,
                units.len(),
            ).len(),
    ensures
        holds_all(list, places(units, size, units.len()).len()) == all_covered(
            units,
            size,
            arrived_places(units, size, list),
        ),
{
    let all = places(units, size, units.len());
    let mapped = list.map_values(|i: int| all[i]);
    let arrived = arrived_places(units, size, list);
    assert(arrived == mapped.to_set());
    lemma_places(sequence, info, units, size, units.len());
    if holds_all(list, all.len()) {
        assert forall|unit: int| 0 <= unit < units.len() implies #[trigger] unit_covered(
            units,
            size,
            arrived,
            unit,
        ) by {
            assert forall|fragment: int| 0 <= fragment < pieces(units[unit].len(), size) implies
                #[trigger] arrived_of(arrived, unit).contains(fragment) by {
                assert(all.contains((unit, fragment)));
                let i = choose|i: int| 0 <= i < all.len() && all[i] == (unit, fragment);
                assert(list.contains(i));
                let k = choose|k: int| 0 <= k < list.len() && list[k] == i;
                assert(mapped[k] == (unit, fragment));
            }
        }
    }
    if all_covered(units, size, arrived) {
        assert forall|i: int| 0 <= i < all.len() implies #[trigger] list.contains(i) by {
            let place = all[i];
            assert(unit_covered(units, size, arrived, place.0));
            assert(arrived_of(arrived, place.0).contains(place.1));
            assert(mapped.contains(place));
            let k = choose|k: int| 0 <= k < mapped.len() && mapped[k] == place;
            assert(all[list[k]] == place);
            assert(list[k] == i);
        }
    }
}

/// The lane after the first `count` datagrams were pushed, in the given order and at the given
/// times.
pub open spec fn after_nal_datagrams(
    lane: NalLaneView,
    fragments: Seq<Seq<u8>>,
    order: Seq<int>,
    times: Seq<u128>,
    count: nat,
) -> NalLaneView
    decreases count,
{
    if count == 0 {
        lane
    } else {
        let last = count - 1;
        after_nal_datagrams(lane, fragments, order, times, last as nat).push(
            times[last],
            fragments[order[last]],
        ).0
    }
}

proof fn lemma_lone_nal_run(
    sequence: u64,
    info: PictureInfo,
    units: Seq<Seq<u8>>,
    size: nat,
    order: Seq<int>,
    times: Seq<u128>,
    count: nat,
)
    requires
        transferable(units, size),
        info.codec == 1,
        forall|i: int|
            0 <= i < order.len() ==> 0 <= #[trigger] order[i] < places(
                units,
                size,
                units.len(),
            ).len(),
        times.len() == order.len(),
        forall|i: int|
            0 < i < times.len() ==> #[trigger] times[i] <= times[i - 1] + REASSEMBLY_TIMEOUT,
        0 < count <= order.len(),
    ensures
        ({
            let fragments = nal_datagrams(sequence, info, units, size, units.len());
            let before = arrived_places(units, size, order.take(count - 1));
            let arrived = arrived_places(units, size, order.take(count as int));
            after_nal_datagrams(
                new_nal_lane(),
                fragments,
                order,
                times,
                (count - 1) as nat,
            ).push(times[count - 1], fragments[order[count - 1]]) == (
                nal_lane_with(sequence, info, units, size, arrived, times[count - 1]),
                Ok::<Option<MessageView>, DcErrorView>(
                    if !all_covered(units, size, before) && all_covered(units, size, arrived) {
                        Some(picture_message(sequence, info, annex_b(units)))
                    } else {
                        None
                    },
                ),
            )
        }),
    decreases count,
{
    let all = places(units, size, units.len());
    let last = count - 1;
    let mapped = order.map_values(|i: int| all[i]);
    let before = arrived_places(units, size, order.take(last));
    let place = all[order[last]];
    lemma_places(sequence, info, units, size, units.len());
    lemma_take_grows(mapped, last);
    assert(order.take(last).map_values(|i: int| all[i]) =~= mapped.take(last));
    assert(order.take(count as int).map_values(|i: int| all[i]) =~= mapped.take(count as int));
    assert(arrived_places(units, size, order.take(count as int)) == before.insert(place));
    if last == 0 {
        assert(before =~= Set::<(int, int)>::empty());
        assert(!all_covered(units, size, before)) by {
            assert(!arrived_of(before, place.0).contains(place.1));
            assert(!unit_covered(units, size, before, place.0));
        }
        lemma_lone_access_unit(
            sequence,
            info,
            units,
            size,
            before,
            place,
            times[last],
            times[last],
        );
    } else {
        lemma_lone_nal_run(sequence, info, units, size, order, times, last as nat);
        lemma_lone_access_unit(
            sequence,
            info,
            units,
            size,
            before,
            place,
            times[last - 1],
            times[last],
        );
    }
}

/// A receiver takes the units of an access unit: each holds data and needs no more fragments
/// than a receiver collects, and the byte stream of all is no longer than a message may be.
pub open spec fn receivable(units: Seq<Seq<u8>>, size: nat) -> bool {
    &&& annex_b(units).len() <= MAX_MESSAGE_SIZE
    &&& forall|u: int|
        0 <= u < units.len() ==> {
            &&& (#[trigger] units[u]).len() > 0
            &&& pieces(units[u].len(), size) <= MAX_NAL_FRAGMENTS
        }
}

proof fn lemma_unit_below_stream(units: Seq<Seq<u8>>, unit: int)
    requires
        0 <= unit < units.len(),
    ensures
        units[unit].len() <= annex_b(units).len(),
    decreases units.len(),
{
    if unit < units.len() - 1 {
        lemma_unit_below_stream(units.drop_last(), unit);
    }
}

/// A new lane to which every datagram of one access unit is pushed, in whatever order, each once
/// or several times, as long as delivery does not stall: the push that completes the access unit
/// delivers the message with the byte stream of its units, every push before and after returns
/// nothing, and in the end one frame counts as completed, none as incomplete and no fragment as
/// malformed. Where each datagram is pushed once, it is the last push that delivers. What is
/// delivered is the message itself, where its data is a byte stream with four-byte start codes.
pub proof fn law_access_unit_is_delivered_once(
    message: MessageView,
    max_datagram_size: nat,
    order: Seq<int>,
    times: Seq<u128>,
)
    requires
        nal_packetize_failure(message, max_datagram_size) is None,
        receivable(
            nal_units(message->Video_data)->Ok_0,
            (max_datagram_size - NAL_HEADER_LEN) as nat,
        ),
        forall|i: int|
            0 <= i < order.len() ==> 0 <= #[trigger] order[i] < message_datagrams(
                message,
                max_datagram_size,
            ).len(),
        holds_all(order, message_datagrams(message, max_datagram_size).len()),
        times.len() == order.len(),
        forall|i: int|
            0 < i < times.len() ==> #[trigger] times[i] <= times[i - 1] + REASSEMBLY_TIMEOUT,
    ensures
        ({
            let fragments = message_datagrams(message, max_datagram_size);
            let units = nal_units(message->Video_data)->Ok_0;
            let delivered = picture_message(
                message->Video_sequence,
                info_of(message),
                annex_b(units),
            );
            &&& forall|k: int|
                #![trigger order[k]]
                0 <= k < order.len() ==> after_nal_datagrams(
                    new_nal_lane(),
                    fragments,
                    order,
                    times,
                    k as nat,
                ).push(times[k], fragments[order[k]]).1 == Ok::<Option<MessageView>, DcErrorView>(
                    if !holds_all(order.take(k), fragments.len()) && holds_all(
                        order.take(k + 1),
                        fragments.len(),
                    ) {
                        Some(delivered)
                    } else {
                        None
                    },
                )
            &&& order.no_duplicates() ==> forall|k: int|
                0 <= k <= order.len() ==> (#[trigger] holds_all(order.take(k), fragments.len())
                    <==> k == order.len())
            &&& after_nal_datagrams(new_nal_lane(), fragments, order, times, order.len()).stats
                == VideoDatagramStats {
                completed_frames: 1,
                incomplete_frames: 0,
                malformed_fragments: 0,
            }
            &&& message->Video_data == annex_b(units) ==> delivered == message
        }),
{
    let size = (max_datagram_size - NAL_HEADER_LEN) as nat;
    let sequence = message->Video_sequence;
    let info = info_of(message);
    let units = nal_units(message->Video_data)->Ok_0;
    let fragments = message_datagrams(message, max_datagram_size);
    let all = places(units, size, units.len());
    lemma_places(sequence, info, units, size, units.len());
    assert(fragments == nal_datagrams(sequence, info, units, size, units.len()));
    assert(transferable(units, size)) by {
        assert forall|u: int| 0 <= u < units.len() implies 0 < (#[trigger] units[u]).len()
            <= MAX_MESSAGE_SIZE by {
            lemma_unit_below_stream(units, u);
        }
    }
    assert forall|k: int| #![trigger order[k]] 0 <= k < order.len() implies after_nal_datagrams(
        new_nal_lane(),
        fragments,
        order,
        times,
        k as nat,
    ).push(times[k], fragments[order[k]]).1 == Ok::<Option<MessageView>, DcErrorView>(
        if !holds_all(order.take(k), fragments.len()) && holds_all(
            order.take(k + 1),
            fragments.len(),
        ) {
            Some(picture_message(sequence, info, annex_b(units)))
        } else {
            None
        },
    ) by {
        lemma_lone_nal_run(sequence, info, units, size, order, times, (k + 1) as nat);
        lemma_all_places(sequence, info, units, size, order.take(k));
        lemma_all_places(sequence, info, units, size, order.take(k + 1));
    }
    assert(order.take(order.len() as int) =~= order);
    if order.no_duplicates() {
        assert forall|k: int| 0 <= k <= order.len() implies (#[trigger] holds_all(
            order.take(k),
            fragments.len(),
        ) <==> k == order.len()) by {
            if k < order.len() && holds_all(order.take(k), fragments.len()) {
                let last = order[order.len() - 1];
                assert(order.take(k).contains(last));
                let j = choose|j: int| 0 <= j < order.take(k).len() && order.take(k)[j] == last;
                assert(order[j] == last);
                assert(false);
            }
        }
    }
    assert(order.len() > 0) by {
        assert(units[0].len() > 0);
        lemma_pieces_bound(units[0].len(), size);
        assert(all.contains((0, 0)));
        assert(order.contains(0));
    }
    lemma_lone_nal_run(sequence, info, units, size, order, times, order.len());
    lemma_all_places(sequence, info, units, size, order);
}

} // verus!
