//! What holds of cutting messages into datagrams and putting them together again.
use crate::bytes::{be_bytes, law_be_bytes_read_back, lemma_byte_range};
use crate::desktop::datagram::{
    all_arrived, cut, datagrams, fragment_bytes, fragment_of, joined_parts, kind_of, legacy_mark,
    lemma_pieces, lemma_pieces_bound, media_sequence_of, nal_mark, no_datagrams, packetize_failure,
    piece, pieces, sound, with_part, FragmentView, LaneView, PartialView, VideoDatagramKind,
    VideoDatagramStats, HEADER_LEN,
};
use crate::desktop::pending::{
    alive, crowded, fresh, lemma_oldest_exists, Aged, MAX_IN_FLIGHT, REASSEMBLY_TIMEOUT,
};
use crate::error::DcErrorView;
use crate::protocol::format::message_bytes;
use crate::protocol::laws::law_decode_reads_back_encode;
use crate::protocol::types::{MessageView, WireMessage};
use vstd::prelude::*;

verus! {

/// A fragment with data is read back from its datagram.
pub proof fn law_fragment_reads_back(fragment: FragmentView)
    requires
        fragment.payload.len() > 0,
        fragment.total_len <= u32::MAX,
    ensures
        fragment_of(fragment_bytes(fragment)) == Ok::<FragmentView, DcErrorView>(fragment),
        fragment_bytes(fragment).len() == HEADER_LEN + fragment.payload.len(),
        kind_of(fragment_bytes(fragment)) == Some(VideoDatagramKind::Legacy),
{
    lemma_byte_range();
    law_be_bytes_read_back(fragment.sequence as nat, 8);
    law_be_bytes_read_back(fragment.index as nat, 2);
    law_be_bytes_read_back(fragment.count as nat, 2);
    law_be_bytes_read_back(fragment.total_len, 4);
    let bytes = fragment_bytes(fragment);
    assert(bytes.take(5) =~= legacy_mark());
    assert(bytes.subrange(5, 13) =~= be_bytes(fragment.sequence as nat, 8));
    assert(bytes.subrange(13, 15) =~= be_bytes(fragment.index as nat, 2));
    assert(bytes.subrange(15, 17) =~= be_bytes(fragment.count as nat, 2));
    assert(bytes.subrange(17, 21) =~= be_bytes(fragment.total_len, 4));
    assert(bytes.skip(21) =~= fragment.payload);
    assert(legacy_mark()[3] != nal_mark()[3]);
}

/// Every datagram of a message fits the size it was cut for, and is recognised by its envelope.
pub proof fn law_datagrams_fit(message: MessageView, max_datagram_size: nat, index: int)
    requires
        packetize_failure(message, max_datagram_size) is None,
        0 <= index < datagrams(
            media_sequence_of(message)->Some_0,
            message_bytes(message),
            (max_datagram_size - HEADER_LEN) as nat,
        ).len(),
    ensures
        ({
            let datagram = datagrams(
                media_sequence_of(message)->Some_0,
                message_bytes(message),
                (max_datagram_size - HEADER_LEN) as nat,
            )[index];
            &&& datagram.len() <= max_datagram_size
            &&& kind_of(datagram) == Some(VideoDatagramKind::Legacy)
        }),
{
    let encoded = message_bytes(message);
    let size = (max_datagram_size - HEADER_LEN) as nat;
    lemma_pieces(encoded.len(), size, index as nat);
    law_fragment_reads_back(
        cut(media_sequence_of(message)->Some_0, encoded, size, index as nat),
    );
}

/// The first pieces of a byte string, as parts that have arrived.
spec fn first_pieces(bytes: Seq<u8>, size: nat, count: nat) -> Seq<Option<Seq<u8>>> {
    Seq::new(count, |i: int| Some(piece(bytes, size, i as nat)))
}

proof fn lemma_first_pieces_join(bytes: Seq<u8>, size: nat, count: nat)
    requires
        size > 0,
        count <= pieces(bytes.len(), size),
    ensures
        count < pieces(bytes.len(), size) ==> count * size <= bytes.len(),
        joined_parts(first_pieces(bytes, size, count)) == if count < pieces(bytes.len(), size) {
            bytes.take((count * size) as int)
        } else {
            bytes
        },
    decreases count,
{
    let parts = first_pieces(bytes, size, count);
    lemma_pieces_bound(bytes.len(), size);
    if count == 0 {
        assert(0 * size == 0) by (nonlinear_arith);
        if pieces(bytes.len(), size) == 0 {
            assert(bytes =~= Seq::empty());
        } else {
            assert(bytes.take(0) =~= Seq::empty());
        }
    } else {
        let last = (count - 1) as nat;
        lemma_pieces(bytes.len(), size, last);
        lemma_first_pieces_join(bytes, size, last);
        assert(parts.drop_last() =~= first_pieces(bytes, size, last));
        let before = bytes.take((last * size) as int);
        if count < pieces(bytes.len(), size) {
            assert(before + piece(bytes, size, last) =~= bytes.take((count * size) as int));
        } else {
            assert(before + piece(bytes, size, last) =~= bytes);
        }
    }
}

/// The pieces of a byte string, one after the other, are the byte string.
pub proof fn law_pieces_join(bytes: Seq<u8>, size: nat)
    requires
        size > 0,
    ensures
        joined_parts(
            Seq::new(
                pieces(bytes.len(), size),
                |i: int| Some(piece(bytes, size, i as nat)),
            ),
        ) == bytes,
{
    lemma_first_pieces_join(bytes, size, pieces(bytes.len(), size));
    assert(first_pieces(bytes, size, pieces(bytes.len(), size)) =~= Seq::new(
        pieces(bytes.len(), size),
        |i: int| Some(piece(bytes, size, i as nat)),
    ));
}

/// A reassembler never holds more than a fixed number of incomplete frames.
pub proof fn law_frames_in_flight_are_bounded(lane: LaneView, now: u128, datagram: Seq<u8>)
    requires
        lane.frames.dom().finite(),
        lane.frames.len() <= MAX_IN_FLIGHT,
    ensures
        lane.push(now, datagram).0.frames.dom().finite(),
        lane.push(now, datagram).0.frames.len() <= MAX_IN_FLIGHT,
{
    let expired = lane.expired(now);
    lemma_alive(lane.frames, now);
    if let Ok(fragment) = fragment_of(datagram) {
        let sequence = fragment.sequence;
        let roomy = expired.roomy(sequence);
        if crowded(expired.frames, sequence) {
            lemma_oldest_exists(expired.frames);
        }
        assert(roomy.frames.dom().finite());
        assert(roomy.frames.contains_key(sequence) ==> roomy.frames.len() <= MAX_IN_FLIGHT);
        assert(!roomy.frames.contains_key(sequence) ==> roomy.frames.len() < MAX_IN_FLIGHT);
    }
}

proof fn lemma_alive<T>(frames: Map<u64, Aged<T>>, now: u128)
    requires
        frames.dom().finite(),
    ensures
        alive(frames, now).dom().finite(),
        alive(frames, now).len() <= frames.len(),
        forall|sequence: u64| #[trigger]
            alive(frames, now).contains_key(sequence) <==> frames.contains_key(sequence) && fresh(
                frames[sequence],
                now,
            ),
{
    frames.dom().lemma_len_filter(|sequence: u64| fresh(frames[sequence], now));
    assert(alive(frames, now).dom() =~= frames.dom().filter(
        |sequence: u64| fresh(frames[sequence], now),
    ));
}

/// Messages are delivered in increasing order of their sequence numbers, each at most once.
pub proof fn law_deliveries_increase(lane: LaneView, now: u128, datagram: Seq<u8>)
    ensures
        ({
            let (after, delivery) = lane.push(now, datagram);
            match delivery {
                Ok(Some(message)) => {
                    &&& media_sequence_of(message) == after.latest
                    &&& after.latest matches Some(sequence)
                    &&& !lane.outdated(sequence)
                    &&& after.outdated(sequence)
                },
                _ => after.latest == lane.latest,
            }
        }),
{
}

/// A frame of which a fragment is missing is not delivered.
pub proof fn law_incomplete_frame_is_not_delivered(
    lane: LaneView,
    now: u128,
    datagram: Seq<u8>,
    fragment: FragmentView,
)
    requires
        fragment_of(datagram) == Ok::<FragmentView, DcErrorView>(fragment),
        ({
            let known = lane.expired(now).roomy(fragment.sequence).known(fragment);
            !all_arrived(with_part(known.parts, fragment.index as int, fragment.payload))
        }),
    ensures
        !(lane.push(now, datagram).1 matches Ok(Some(_))),
{
}

/// A fragment leaves every other frame as it is, unless that frame has stalled or had to make
/// room.
pub proof fn law_other_frames_are_untouched(
    lane: LaneView,
    now: u128,
    datagram: Seq<u8>,
    other: u64,
)
    requires
        lane.frames.dom().finite(),
        lane.frames.contains_key(other),
        fresh(lane.frames[other], now),
        lane.expired(now).frames.len() < MAX_IN_FLIGHT,
        fragment_of(datagram) matches Ok(fragment) ==> fragment.sequence != other,
    ensures
        lane.push(now, datagram).0.frames.contains_key(other),
        lane.push(now, datagram).0.frames[other] == lane.frames[other],
{
    lemma_alive(lane.frames, now);
}

/// The parts of a message of which the pieces in `arrived` are there.
pub open spec fn arrived_parts(encoded: Seq<u8>, size: nat, arrived: Set<int>) -> Seq<
    Option<Seq<u8>>,
> {
    Seq::new(
        pieces(encoded.len(), size),
        |i: int|
            if arrived.contains(i) {
                Some(piece(encoded, size, i as nat))
            } else {
                None
            },
    )
}

/// The lane is collecting a message and holds exactly the pieces in `arrived`; the last of them
/// came recently.
pub open spec fn collecting(
    lane: LaneView,
    sequence: u64,
    encoded: Seq<u8>,
    size: nat,
    arrived: Set<int>,
    now: u128,
) -> bool {
    &&& lane.frames.dom().finite()
    &&& !lane.outdated(sequence)
    &&& if lane.frames.contains_key(sequence) {
        let entry = lane.frames[sequence];
        &&& fresh(entry, now)
        &&& entry.content.total_len == encoded.len()
        &&& entry.content.parts == arrived_parts(encoded, size, arrived)
    } else {
        arrived == Set::<int>::empty()
    }
}

/// Every piece has arrived.
pub open spec fn covered(encoded: Seq<u8>, size: nat, arrived: Set<int>) -> bool {
    forall|i: int| 0 <= i < pieces(encoded.len(), size) ==> #[trigger] arrived.contains(i)
}

/// One more fragment of a message that is being collected: where it is the last one the message
/// is delivered, else it is kept.
pub proof fn law_fragment_is_collected(
    message: WireMessage,
    size: nat,
    lane: LaneView,
    arrived: Set<int>,
    index: int,
    now: u128,
)
    requires
        size > 0,
        packetize_failure(message@, size + HEADER_LEN as nat) is None,
        0 <= index < pieces(message_bytes(message@).len(), size),
        collecting(
            lane,
            media_sequence_of(message@)->Some_0,
            message_bytes(message@),
            size,
            arrived,
            now,
        ),
    ensures
        ({
            let sequence = media_sequence_of(message@)->Some_0;
            let encoded = message_bytes(message@);
            let (after, delivery) = lane.push(now, datagrams(sequence, encoded, size)[index]);
            if covered(encoded, size, arrived.insert(index)) {
                &&& delivery == Ok::<Option<MessageView>, DcErrorView>(Some(message@))
                &&& after.latest == Some(sequence)
                &&& !after.frames.contains_key(sequence)
            } else {
                &&& delivery == Ok::<Option<MessageView>, DcErrorView>(None)
                &&& collecting(after, sequence, encoded, size, arrived.insert(index), now)
                &&& after.frames.contains_key(sequence)
                &&& after.frames[sequence].last == now
            }
        }),
{
    let sequence = media_sequence_of(message@)->Some_0;
    let encoded = message_bytes(message@);
    let fragment = cut(sequence, encoded, size, index as nat);
    let datagram = datagrams(sequence, encoded, size)[index];
    lemma_pieces(encoded.len(), size, index as nat);
    law_fragment_reads_back(fragment);
    assert(fragment_of(datagram) == Ok::<FragmentView, DcErrorView>(fragment));
    assert(sound(fragment));
    let expired = lane.expired(now);
    lemma_alive(lane.frames, now);
    if crowded(expired.frames, sequence) {
        lemma_oldest_exists(expired.frames);
    }
    let roomy = expired.roomy(sequence);
    assert(roomy.frames.dom().finite());
    let known = roomy.known(fragment);
    let before = arrived_parts(encoded, size, arrived);
    assert(known.total_len == encoded.len());
    assert(known.parts =~= before);
    let parts = with_part(known.parts, index, fragment.payload);
    assert(parts =~= arrived_parts(encoded, size, arrived.insert(index)));
    if covered(encoded, size, arrived.insert(index)) {
        assert forall|i: int| 0 <= i < parts.len() implies (#[trigger] parts[i]) is Some by {
            assert(arrived.insert(index).contains(i));
        }
        assert(all_arrived(parts));
        law_pieces_join(encoded, size);
        assert(parts =~= Seq::new(
            pieces(encoded.len(), size),
            |i: int| Some(piece(encoded, size, i as nat)),
        ));
        law_decode_reads_back_encode(message);
    } else {
        let missing = choose|i: int|
            0 <= i < pieces(encoded.len(), size) && !#[trigger] arrived.insert(index).contains(i);
        assert(parts[missing] is None);
        assert(!all_arrived(parts));
    }
}

/// The lane after the first `count` fragments were pushed, in the given order and at the given
/// times.
pub open spec fn after_pushes(
    lane: LaneView,
    fragments: Seq<Seq<u8>>,
    order: Seq<int>,
    times: Seq<u128>,
    count: nat,
) -> LaneView
    decreases count,
{
    if count == 0 {
        lane
    } else {
        let last = count - 1;
        after_pushes(lane, fragments, order, times, last as nat).push(
            times[last],
            fragments[order[last]],
        ).0
    }
}

proof fn lemma_collecting_prefix(
    message: WireMessage,
    size: nat,
    lane: LaneView,
    order: Seq<int>,
    times: Seq<u128>,
    count: nat,
)
    requires
        size > 0,
        packetize_failure(message@, size + HEADER_LEN as nat) is None,
        lane.frames.dom().finite(),
        !lane.outdated(media_sequence_of(message@)->Some_0),
        !lane.frames.contains_key(media_sequence_of(message@)->Some_0),
        forall|i: int|
            0 <= i < order.len() ==> 0 <= #[trigger] order[i] < pieces(
                message_bytes(message@).len(),
                size,
            ),
        times.len() == order.len(),
        forall|i: int|
            0 < i < times.len() ==> #[trigger] times[i] <= times[i - 1] + REASSEMBLY_TIMEOUT,
        count < order.len(),
        !covered(message_bytes(message@), size, order.take(count as int).to_set()),
    ensures
        ({
            let sequence = media_sequence_of(message@)->Some_0;
            let encoded = message_bytes(message@);
            let held = after_pushes(
                lane,
                datagrams(sequence, encoded, size),
                order,
                times,
                count,
            );
            collecting(
                held,
                sequence,
                encoded,
                size,
                order.take(count as int).to_set(),
                times[count as int],
            )
        }),
    decreases count,
{
    let sequence = media_sequence_of(message@)->Some_0;
    let encoded = message_bytes(message@);
    let fragments = datagrams(sequence, encoded, size);
    let arrived = order.take(count as int).to_set();
    if count == 0 {
        assert(arrived =~= Set::<int>::empty());
    } else {
        let last = (count - 1) as nat;
        let before = order.take(last as int).to_set();
        assert(arrived =~= before.insert(order[last as int])) by {
            lemma_take_grows(order, last as int);
        }
        assert(!covered(encoded, size, before)) by {
            let missing = choose|i: int|
                0 <= i < pieces(encoded.len(), size) && !#[trigger] arrived.contains(i);
            assert(!before.contains(missing));
        }
        lemma_collecting_prefix(message, size, lane, order, times, last);
        law_fragment_is_collected(
            message,
            size,
            after_pushes(lane, fragments, order, times, last),
            before,
            order[last as int],
            times[last as int],
        );
        assert(times[count as int] <= times[count as int - 1] + REASSEMBLY_TIMEOUT);
    }
}

proof fn lemma_take_grows(order: Seq<int>, last: int)
    requires
        0 <= last < order.len(),
    ensures
        order.take(last + 1).to_set() =~= order.take(last).to_set().insert(order[last]),
{
    let more = order.take(last + 1);
    let few = order.take(last);
    assert(more =~= few.push(order[last]));
    assert forall|i: int| more.to_set().contains(i) <==> few.to_set().insert(
        order[last],
    ).contains(i) by {
        if few.contains(i) {
            let k = choose|k: int| 0 <= k < few.len() && few[k] == i;
            assert(more[k] == i);
        }
        if i == order[last] {
            assert(more[last] == i);
        }
        if more.contains(i) {
            let k = choose|k: int| 0 <= k < more.len() && more[k] == i;
            if k < last {
                assert(few[k] == i);
            }
        }
    }
}

/// A message cut into datagrams is put together again in whatever order they arrive, repeated or
/// not, as long as delivery does not stall: the fragment that completes it delivers it, and none
/// before does.
pub proof fn law_any_order_delivers_the_message(
    message: WireMessage,
    size: nat,
    lane: LaneView,
    order: Seq<int>,
    times: Seq<u128>,
)
    requires
        size > 0,
        packetize_failure(message@, size + HEADER_LEN as nat) is None,
        lane.frames.dom().finite(),
        !lane.outdated(media_sequence_of(message@)->Some_0),
        !lane.frames.contains_key(media_sequence_of(message@)->Some_0),
        forall|i: int|
            0 <= i < order.len() ==> 0 <= #[trigger] order[i] < pieces(
                message_bytes(message@).len(),
                size,
            ),
        times.len() == order.len(),
        forall|i: int|
            0 < i < times.len() ==> #[trigger] times[i] <= times[i - 1] + REASSEMBLY_TIMEOUT,
        order.len() > 0,
        !covered(message_bytes(message@), size, order.drop_last().to_set()),
        covered(message_bytes(message@), size, order.to_set()),
    ensures
        ({
            let sequence = media_sequence_of(message@)->Some_0;
            let fragments = datagrams(sequence, message_bytes(message@), size);
            forall|k: int|
                #![trigger order[k]]
                0 <= k < order.len() ==> after_pushes(
                    lane,
                    fragments,
                    order,
                    times,
                    k as nat,
                ).push(times[k], fragments[order[k]]).1 == Ok::<Option<MessageView>, DcErrorView>(
                    if k == order.len() - 1 {
                        Some(message@)
                    } else {
                        None
                    },
                )
        }),
{
    let sequence = media_sequence_of(message@)->Some_0;
    let encoded = message_bytes(message@);
    let fragments = datagrams(sequence, encoded, size);
    assert forall|k: int| #![trigger order[k]] 0 <= k < order.len() implies after_pushes(
        lane,
        fragments,
        order,
        times,
        k as nat,
    ).push(times[k], fragments[order[k]]).1 == Ok::<Option<MessageView>, DcErrorView>(
        if k == order.len() - 1 {
            Some(message@)
        } else {
            None
        },
    ) by {
        let arrived = order.take(k).to_set();
        lemma_take_grows(order, k);
        let all = order.drop_last();
        assert(forall|i: int| #[trigger] arrived.contains(i) ==> all.to_set().contains(i)) by {
            assert forall|i: int| #[trigger] arrived.contains(i) implies all.to_set().contains(
                i,
            ) by {
                let j = choose|j: int| 0 <= j < order.take(k).len() && order.take(k)[j] == i;
                assert(all[j] == i);
            }
        }
        let missing = choose|i: int|
            0 <= i < pieces(encoded.len(), size) && !#[trigger] all.to_set().contains(i);
        assert(!arrived.contains(missing));
        assert(!covered(encoded, size, arrived));
        lemma_collecting_prefix(message, size, lane, order, times, k as nat);
        law_fragment_is_collected(
            message,
            size,
            after_pushes(lane, fragments, order, times, k as nat),
            arrived,
            order[k],
            times[k],
        );
        let next = arrived.insert(order[k]);
        if k == order.len() - 1 {
            assert(order.take(k + 1) =~= order);
            assert(covered(encoded, size, next)) by {
                assert forall|i: int| 0 <= i < pieces(encoded.len(), size) implies
                    #[trigger] next.contains(i) by {
                    assert(order.to_set().contains(i));
                }
            }
        } else {
            assert(!next.contains(missing)) by {
                if next.contains(missing) {
                    assert(order[k] == missing);
                    assert(all[k] == missing);
                }
            }
        }
    }
}

/// A lane on which nothing has arrived.
pub open spec fn new_lane() -> LaneView {
    LaneView {
        frames: Map::<u64, Aged<PartialView>>::empty(),
        latest: None,
        stats: no_datagrams(),
    }
}

/// What a new lane becomes by the given pieces of one message, the last of which came at the
/// given time: it holds what has arrived until that is all of it, and counts one completed frame
/// from then on.
pub open spec fn lane_with(
    sequence: u64,
    encoded: Seq<u8>,
    size: nat,
    arrived: Set<int>,
    last: u128,
) -> LaneView {
    if covered(encoded, size, arrived) {
        LaneView {
            latest: Some(sequence),
            stats: VideoDatagramStats { completed_frames: 1, ..no_datagrams() },
            ..new_lane()
        }
    } else if arrived == Set::<int>::empty() {
        new_lane()
    } else {
        let content = PartialView {
            total_len: encoded.len(),
            parts: arrived_parts(encoded, size, arrived),
        };
        LaneView {
            frames: Map::<u64, Aged<PartialView>>::empty().insert(
                sequence,
                Aged { last, content },
            ),
            ..new_lane()
        }
    }
}

/// One piece of the only message on a lane: the piece that completes it delivers it, and a piece
/// that comes before or after delivers nothing.
proof fn lemma_lone_message(
    message: WireMessage,
    size: nat,
    arrived: Set<int>,
    index: int,
    last: u128,
    now: u128,
)
    requires
        size > 0,
        packetize_failure(message@, size + HEADER_LEN as nat) is None,
        0 <= index < pieces(message_bytes(message@).len(), size),
        now <= last + REASSEMBLY_TIMEOUT,
    ensures
        ({
            let sequence = media_sequence_of(message@)->Some_0;
            let encoded = message_bytes(message@);
            let more = arrived.insert(index);
            lane_with(sequence, encoded, size, arrived, last).push(
                now,
                datagrams(sequence, encoded, size)[index],
            ) == (
                lane_with(sequence, encoded, size, more, now),
                Ok::<Option<MessageView>, DcErrorView>(
                    if !covered(encoded, size, arrived) && covered(encoded, size, more) {
                        Some(message@)
                    } else {
                        None
                    },
                ),
            )
        }),
{
    let sequence = media_sequence_of(message@)->Some_0;
    let encoded = message_bytes(message@);
    let more = arrived.insert(index);
    let lane = lane_with(sequence, encoded, size, arrived, last);
    let fragment = cut(sequence, encoded, size, index as nat);
    let datagram = datagrams(sequence, encoded, size)[index];
    lemma_pieces(encoded.len(), size, index as nat);
    law_fragment_reads_back(fragment);
    assert(fragment_of(datagram) == Ok::<FragmentView, DcErrorView>(fragment));
    assert(sound(fragment));
    assert(alive(lane.frames, now) =~= lane.frames);
    assert(lane.expired(now) == lane);
    assert(lane.frames.len() <= 1);
    assert(more.contains(index));
    if covered(encoded, size, arrived) {
        assert(covered(encoded, size, more)) by {
            assert forall|i: int| 0 <= i < pieces(encoded.len(), size) implies
                #[trigger] more.contains(i) by {
                assert(arrived.contains(i));
            }
        }
    } else {
        let known = lane.known(fragment);
        assert(lane.roomy(sequence) == lane);
        assert(known.parts =~= arrived_parts(encoded, size, arrived));
        let parts = with_part(known.parts, index, fragment.payload);
        assert(parts =~= arrived_parts(encoded, size, more));
        assert(collecting(lane, sequence, encoded, size, arrived, now));
        law_fragment_is_collected(message, size, lane, arrived, index, now);
        let (after, _) = lane.push(now, datagram);
        if covered(encoded, size, more) {
            assert forall|i: int| 0 <= i < parts.len() implies (#[trigger] parts[i]) is Some by {
                assert(more.contains(i));
            }
            assert(all_arrived(parts));
            assert(after.frames =~= Map::<u64, Aged<PartialView>>::empty());
        } else {
            let missing = choose|i: int|
                0 <= i < pieces(encoded.len(), size) && !#[trigger] more.contains(i);
            assert(parts[missing] is None);
            assert(!all_arrived(parts));
            assert(after.frames =~= lane_with(sequence, encoded, size, more, now).frames);
        }
    }
}

proof fn lemma_lone_run(
    message: WireMessage,
    size: nat,
    order: Seq<int>,
    times: Seq<u128>,
    count: nat,
)
    requires
        size > 0,
        packetize_failure(message@, size + HEADER_LEN as nat) is None,
        forall|i: int|
            0 <= i < order.len() ==> 0 <= #[trigger] order[i] < pieces(
                message_bytes(message@).len(),
                size,
            ),
        times.len() == order.len(),
        forall|i: int|
            0 < i < times.len() ==> #[trigger] times[i] <= times[i - 1] + REASSEMBLY_TIMEOUT,
        0 < count <= order.len(),
    ensures
        ({
            let sequence = media_sequence_of(message@)->Some_0;
            let encoded = message_bytes(message@);
            let fragments = datagrams(sequence, encoded, size);
            let before = order.take(count - 1).to_set();
            let arrived = order.take(count as int).to_set();
            after_pushes(new_lane(), fragments, order, times, (count - 1) as nat).push(
                times[count - 1],
                fragments[order[count - 1]],
            ) == (
                lane_with(sequence, encoded, size, arrived, times[count - 1]),
                Ok::<Option<MessageView>, DcErrorView>(
                    if !covered(encoded, size, before) && covered(encoded, size, arrived) {
                        Some(message@)
                    } else {
                        None
                    },
                ),
            )
        }),
    decreases count,
{
    let sequence = media_sequence_of(message@)->Some_0;
    let encoded = message_bytes(message@);
    let last = count - 1;
    let before = order.take(last).to_set();
    lemma_take_grows(order, last);
    assert(order.take(count as int).to_set() == before.insert(order[last]));
    if last == 0 {
        assert(before =~= Set::<int>::empty());
        assert(!covered(encoded, size, before)) by {
            assert(!before.contains(order[last]));
        }
        lemma_lone_message(message, size, before, order[last], times[last], times[last]);
    } else {
        lemma_lone_run(message, size, order, times, last as nat);
        lemma_lone_message(message, size, before, order[last], times[last - 1], times[last]);
    }
}

/// A new lane to which every datagram of one message is pushed, in whatever order, each once or
/// several times, as long as delivery does not stall: the push that completes the message
/// delivers it, every push before and after returns nothing, and in the end one frame counts as
/// completed, none as incomplete and no fragment as malformed.
pub proof fn law_message_is_delivered_once(
    message: WireMessage,
    max_datagram_size: nat,
    order: Seq<int>,
    times: Seq<u128>,
)
    requires
        packetize_failure(message@, max_datagram_size) is None,
        ({
            let size = (max_datagram_size - HEADER_LEN) as nat;
            let encoded = message_bytes(message@);
            &&& forall|i: int|
                0 <= i < order.len() ==> 0 <= #[trigger] order[i] < datagrams(
                    media_sequence_of(message@)->Some_0,
                    encoded,
                    size,
                ).len()
            &&& covered(encoded, size, order.to_set())
        }),
        times.len() == order.len(),
        forall|i: int|
            0 < i < times.len() ==> #[trigger] times[i] <= times[i - 1] + REASSEMBLY_TIMEOUT,
    ensures
        ({
            let size = (max_datagram_size - HEADER_LEN) as nat;
            let encoded = message_bytes(message@);
            let fragments = datagrams(media_sequence_of(message@)->Some_0, encoded, size);
            &&& forall|k: int|
                #![trigger order[k]]
                0 <= k < order.len() ==> after_pushes(
                    new_lane(),
                    fragments,
                    order,
                    times,
                    k as nat,
                ).push(times[k], fragments[order[k]]).1 == Ok::<Option<MessageView>, DcErrorView>(
                    if !covered(encoded, size, order.take(k).to_set()) && covered(
                        encoded,
                        size,
                        order.take(k + 1).to_set(),
                    ) {
                        Some(message@)
                    } else {
                        None
                    },
                )
            &&& after_pushes(new_lane(), fragments, order, times, order.len()).stats
                == VideoDatagramStats {
                completed_frames: 1,
                incomplete_frames: 0,
                malformed_fragments: 0,
            }
        }),
{
    let size = (max_datagram_size - HEADER_LEN) as nat;
    let encoded = message_bytes(message@);
    let fragments = datagrams(media_sequence_of(message@)->Some_0, encoded, size);
    assert forall|k: int| #![trigger order[k]] 0 <= k < order.len() implies after_pushes(
        new_lane(),
        fragments,
        order,
        times,
        k as nat,
    ).push(times[k], fragments[order[k]]).1 == Ok::<Option<MessageView>, DcErrorView>(
        if !covered(encoded, size, order.take(k).to_set()) && covered(
            encoded,
            size,
            order.take(k + 1).to_set(),
        ) {
            Some(message@)
        } else {
            None
        },
    ) by {
        lemma_lone_run(message, size, order, times, (k + 1) as nat);
    }
    assert(order.len() > 0) by {
        lemma_pieces_bound(encoded.len(), size);
        assert(order.to_set().contains(0));
    }
    lemma_lone_run(message, size, order, times, order.len());
    assert(order.take(order.len() as int) =~= order);
}

} // verus!
