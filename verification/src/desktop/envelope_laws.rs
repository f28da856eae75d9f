//! What datagrams look like, and which of them are taken.
use crate::bytes::{be_bytes, flag_byte, lemma_byte_range};
use crate::desktop::datagram::{
    all_arrived, cut, datagrams, delivers, fragment_bytes, fragment_of, joined_parts, kind_of,
    legacy_mark, media_sequence_of, nal_mark, none_arrived, packetize_failure, pieces, sound,
    with_part, Delivery, FragmentView, LaneView, VideoDatagramKind,
};
use crate::desktop::nal_datagram::{
    declared_bytes, filled_slot, info_of, nal_cut, nal_fragment_bytes, nal_fragment_of, nal_header,
    nal_packetize_failure, nal_sound, picture_message, unit_datagrams, NalFragmentView, NalLaneView,
    PictureInfo, SlotView,
};
use crate::desktop::pending::{alive, counted};
use crate::error::{DcError, DcErrorView};
use crate::media::nal::nal_units;
use crate::protocol::format::{encode_failure, message_bytes};
use crate::protocol::laws::lemma_all_be_bytes_len;
use crate::protocol::types::{MessageView, WireMessage};
use crate::protocol::wire_laws::{lemma_field, number_at, stand_at};
use vstd::arithmetic::div_mod::{lemma_fundamental_div_mod, lemma_mod_bound};
use vstd::prelude::*;

verus! {

/// Datagrams begin with the letters DCVD, or DCVN where they carry units of H.264, and the number
/// one; no others are known.
pub proof fn law_datagrams_begin_with_their_letters(datagram: Seq<u8>)
    ensures
        kind_of(datagram) == Some(VideoDatagramKind::Legacy) <==> datagram.len() >= 5 && datagram[0]
            == 0x44 && datagram[1] == 0x43 && datagram[2] == 0x56 && datagram[3] == 0x44
            && datagram[4] == 1,
        kind_of(datagram) == Some(VideoDatagramKind::H264Nal) <==> datagram.len() >= 5
            && datagram[0] == 0x44 && datagram[1] == 0x43 && datagram[2] == 0x56 && datagram[3]
            == 0x4e && datagram[4] == 1,
{
    if datagram.len() >= 5 {
        let front = datagram.take(5);
        assert(front[0] == datagram[0] && front[1] == datagram[1] && front[2] == datagram[2]
            && front[3] == datagram[3] && front[4] == datagram[4]);
        if datagram[0] == 0x44 && datagram[1] == 0x43 && datagram[2] == 0x56 && datagram[4] == 1 {
            if datagram[3] == 0x44 {
                assert(front =~= legacy_mark());
                assert(nal_mark()[3] != front[3]);
            }
            if datagram[3] == 0x4e {
                assert(front =~= nal_mark());
            }
        }
    }
}

/// A fragment of a message: behind the letters the message's number, the fragment's own, how many
/// there are, the length of the whole, and the fragment's share of it.
#[verifier::spinoff_prover]
#[verifier::rlimit(40)]
pub proof fn law_fragment_layout(fragment: FragmentView)
    requires
        fragment.total_len <= u32::MAX,
    ensures
        ({
            let bytes = fragment_bytes(fragment);
            &&& bytes.len() == 21 + fragment.payload.len()
            &&& bytes[0] == 0x44
            &&& bytes[1] == 0x43
            &&& bytes[2] == 0x56
            &&& bytes[3] == 0x44
            &&& bytes[4] == 1
            &&& number_at(bytes, 5, 8) == fragment.sequence
            &&& number_at(bytes, 13, 2) == fragment.index
            &&& number_at(bytes, 15, 2) == fragment.count
            &&& number_at(bytes, 17, 4) == fragment.total_len
            &&& stand_at(bytes, 21, fragment.payload)
        }),
{
    let bytes = fragment_bytes(fragment);
    lemma_all_be_bytes_len();
    lemma_byte_range();
    assert(bytes.subrange(5, 13) =~= be_bytes(fragment.sequence as nat, 8));
    lemma_field(bytes, 5, fragment.sequence as nat, 8);
    assert(bytes.subrange(13, 15) =~= be_bytes(fragment.index as nat, 2));
    lemma_field(bytes, 13, fragment.index as nat, 2);
    assert(bytes.subrange(15, 17) =~= be_bytes(fragment.count as nat, 2));
    lemma_field(bytes, 15, fragment.count as nat, 2);
    assert(bytes.subrange(17, 21) =~= be_bytes(fragment.total_len, 4));
    lemma_field(bytes, 17, fragment.total_len, 4);
}

/// A fragment of a unit of H.264: behind the letters the codec, the picture's number and time, whether
/// it is a keyframe, its size, format and stride, which unit of how many, which fragment of how many,
/// the length of the unit, and the fragment's share of it.
#[verifier::spinoff_prover]
#[verifier::rlimit(80)]
pub proof fn law_unit_fragment_layout(fragment: NalFragmentView)
    requires
        fragment.unit_len <= u32::MAX,
    ensures
        ({
            let bytes = nal_fragment_bytes(fragment);
            &&& bytes.len() == 48 + fragment.payload.len()
            &&& bytes[0] == 0x44
            &&& bytes[1] == 0x43
            &&& bytes[2] == 0x56
            &&& bytes[3] == 0x4e
            &&& bytes[4] == 1
            &&& bytes[5] == fragment.info.codec
            &&& number_at(bytes, 6, 8) == fragment.sequence
            &&& number_at(bytes, 14, 8) == fragment.info.timestamp_millis
            &&& bytes[22] == (if fragment.info.keyframe {
                1u8
            } else {
                0u8
            })
            &&& number_at(bytes, 23, 4) == fragment.info.width
            &&& number_at(bytes, 27, 4) == fragment.info.height
            &&& bytes[31] == fragment.info.pixel_format
            &&& number_at(bytes, 32, 4) == fragment.info.stride
            &&& number_at(bytes, 36, 2) == fragment.unit_index
            &&& number_at(bytes, 38, 2) == fragment.unit_count
            &&& number_at(bytes, 40, 2) == fragment.fragment_index
            &&& number_at(bytes, 42, 2) == fragment.fragment_count
            &&& number_at(bytes, 44, 4) == fragment.unit_len
            &&& stand_at(bytes, 48, fragment.payload)
        }),
{
    let bytes = nal_fragment_bytes(fragment);
    let info = fragment.info;
    lemma_all_be_bytes_len();
    lemma_byte_range();
    assert(nal_header(fragment).len() == 48);
    assert(bytes.subrange(6, 14) =~= be_bytes(fragment.sequence as nat, 8));
    lemma_field(bytes, 6, fragment.sequence as nat, 8);
    assert(bytes.subrange(14, 22) =~= be_bytes(info.timestamp_millis as nat, 8));
    lemma_field(bytes, 14, info.timestamp_millis as nat, 8);
    assert(bytes[22] == flag_byte(info.keyframe));
    assert(bytes.subrange(23, 27) =~= be_bytes(info.width as nat, 4));
    lemma_field(bytes, 23, info.width as nat, 4);
    assert(bytes.subrange(27, 31) =~= be_bytes(info.height as nat, 4));
    lemma_field(bytes, 27, info.height as nat, 4);
    assert(bytes.subrange(32, 36) =~= be_bytes(info.stride as nat, 4));
    lemma_field(bytes, 32, info.stride as nat, 4);
    assert(bytes.subrange(36, 38) =~= be_bytes(fragment.unit_index as nat, 2));
    lemma_field(bytes, 36, fragment.unit_index as nat, 2);
    assert(bytes.subrange(38, 40) =~= be_bytes(fragment.unit_count as nat, 2));
    lemma_field(bytes, 38, fragment.unit_count as nat, 2);
    assert(bytes.subrange(40, 42) =~= be_bytes(fragment.fragment_index as nat, 2));
    lemma_field(bytes, 40, fragment.fragment_index as nat, 2);
    assert(bytes.subrange(42, 44) =~= be_bytes(fragment.fragment_count as nat, 2));
    lemma_field(bytes, 42, fragment.fragment_count as nat, 2);
    assert(bytes.subrange(44, 48) =~= be_bytes(fragment.unit_len, 4));
    lemma_field(bytes, 44, fragment.unit_len, 4);
}

proof fn lemma_share(length: nat, size: nat, index: int)
    requires
        size > 0,
        0 <= index < pieces(length, size),
    ensures
        (pieces(length, size) - 1) * size < length <= pieces(length, size) * size,
        index * size < length,
        index + 1 < pieces(length, size) ==> (index + 1) * size < length,
        index + 1 == pieces(length, size) ==> length <= (index + 1) * size,
{
    lemma_fundamental_div_mod(length as int, size as int);
    lemma_mod_bound(length as int, size as int);
    let whole = length as int / size as int;
    let rest = length as int % size as int;
    let count = pieces(length, size) as int;
    assert((count - 1) * size < length && length <= count * size) by (nonlinear_arith)
        requires
            length == size * whole + rest,
            0 <= rest < size,
            size > 0,
            rest == 0 ==> count == whole,
            rest > 0 ==> count == whole + 1,
    ;
    assert(index * size <= (count - 1) * size) by (nonlinear_arith)
        requires
            index <= count - 1,
            size > 0,
    ;
    if index + 1 < count {
        assert((index + 1) * size <= (count - 1) * size) by (nonlinear_arith)
            requires
                index + 1 <= count - 1,
                size > 0,
        ;
    }
}

/// A message is cut into as few pieces as it needs, all but the last of them full, and each datagram
/// has the piece of its place, the message's number, its own and how many there are.
pub proof fn law_message_is_cut_in_order(
    sequence: u64,
    encoded: Seq<u8>,
    size: nat,
    index: int,
    offset: int,
)
    requires
        size > 0,
        0 <= index < datagrams(sequence, encoded, size).len() <= 0xffff,
        0 <= offset < size,
        index * size + offset < encoded.len(),
    ensures
        ({
            let count = datagrams(sequence, encoded, size).len();
            let fragment = cut(sequence, encoded, size, index as nat);
            &&& datagrams(sequence, encoded, size)[index] == fragment_bytes(fragment)
            &&& (count - 1) * size < encoded.len() <= count * size
            &&& fragment.sequence == sequence
            &&& fragment.index == index
            &&& fragment.count == count
            &&& fragment.total_len == encoded.len()
            &&& fragment.payload.len() == (if index + 1 < count {
                size as int
            } else {
                encoded.len() - index * size
            })
            &&& fragment.payload[offset] == encoded[index * size + offset]
        }),
{
    lemma_share(encoded.len(), size, index);
    assert((index + 1) * size == index * size + size) by (nonlinear_arith);
    assert(0 <= index * size) by (nonlinear_arith)
        requires
            0 <= index,
            0 < size,
    ;
}

/// A unit is cut in the same way, and each datagram tells besides which unit it belongs to.
pub proof fn law_unit_is_cut_in_order(
    sequence: u64,
    info: PictureInfo,
    units: Seq<Seq<u8>>,
    size: nat,
    unit_index: int,
    index: int,
    offset: int,
)
    requires
        size > 0,
        0 <= unit_index < units.len() <= 0xffff,
        0 <= index < unit_datagrams(sequence, info, units, size, unit_index).len() <= 0xffff,
        0 <= offset < size,
        index * size + offset < units[unit_index].len(),
    ensures
        ({
            let parts = unit_datagrams(sequence, info, units, size, unit_index);
            let unit = units[unit_index];
            let fragment = nal_cut(sequence, info, units, size, unit_index, index);
            &&& parts[index] == nal_fragment_bytes(fragment)
            &&& (parts.len() - 1) * size < unit.len() <= parts.len() * size
            &&& fragment.info == info
            &&& fragment.sequence == sequence
            &&& fragment.unit_index == unit_index
            &&& fragment.unit_count == units.len()
            &&& fragment.fragment_index == index
            &&& fragment.fragment_count == parts.len()
            &&& fragment.unit_len == unit.len()
            &&& fragment.payload.len() == (if index + 1 < parts.len() {
                size as int
            } else {
                unit.len() - index * size
            })
            &&& fragment.payload[offset] == unit[index * size + offset]
        }),
{
    lemma_share(units[unit_index].len(), size, index);
    assert((index + 1) * size == index * size + size) by (nonlinear_arith);
    assert(0 <= index * size) by (nonlinear_arith)
        requires
            0 <= index,
            0 < size,
    ;
}

/// A picture or an update that can be encoded can be cut for any datagram that has room behind the
/// header, as long as its pieces can be numbered; nothing else can.
pub proof fn law_media_can_be_cut(message: MessageView, max_datagram_size: nat)
    ensures
        packetize_failure(message, max_datagram_size) is None <==> {
            &&& message is Video || message is DesktopUpdate
            &&& max_datagram_size > 21
            &&& encode_failure(message) is None
            &&& pieces(message_bytes(message).len(), (max_datagram_size - 21) as nat) <= 0xffff
        },
        media_sequence_of(message) is Some <==> message is Video || message is DesktopUpdate,
        message is Video ==> media_sequence_of(message) == Some(message->Video_sequence),
        message is DesktopUpdate ==> media_sequence_of(message) == Some(
            message->DesktopUpdate_sequence,
        ),
{
}

/// Only pictures of H.264 are cut at their units, into datagrams that have room behind the header,
/// and only those that have units, 4,096 at most.
pub proof fn law_only_h264_is_cut_at_its_units(message: MessageView, max_datagram_size: nat)
    requires
        nal_packetize_failure(message, max_datagram_size) is None,
    ensures
        message is Video,
        message->Video_codec == 1,
        max_datagram_size > 48,
        nal_units(message->Video_data) is Ok,
        1 <= nal_units(message->Video_data)->Ok_0.len() <= 4_096,
        info_of(message) == (PictureInfo {
            codec: message->Video_codec,
            timestamp_millis: message->Video_timestamp_millis,
            keyframe: message->Video_keyframe,
            width: message->Video_width,
            height: message->Video_height,
            pixel_format: message->Video_pixel_format,
            stride: message->Video_stride,
        }),
        picture_message(
            message->Video_sequence,
            info_of(message),
            message->Video_data,
        ) == message,
{
}

/// A fragment is taken exactly where it is one of those that its message was cut into, and the message
/// is neither empty nor too long.
pub proof fn law_sound_fragments(fragment: FragmentView)
    ensures
        sound(fragment) <==> fragment.index < fragment.count && 1 <= fragment.total_len
            && fragment.total_len <= 16_777_216,
{
}

/// The same of a fragment of a unit, which is not longer than the unit, of 4,096 units at most and in
/// 16,384 fragments at most.
pub proof fn law_sound_unit_fragments(fragment: NalFragmentView)
    ensures
        nal_sound(fragment) <==> {
            &&& fragment.info.codec == 1
            &&& fragment.unit_index < fragment.unit_count
            &&& fragment.unit_count <= 4_096
            &&& fragment.fragment_index < fragment.fragment_count
            &&& fragment.fragment_count <= 16_384
            &&& 1 <= fragment.unit_len
            &&& fragment.unit_len <= 16_777_216
            &&& fragment.payload.len() <= fragment.unit_len
        },
{
}

/// What is no fragment is refused and counted, and what comes behind a message that is complete is
/// left out without a word. Neither changes what is being collected, but for what has waited too
/// long, which counts as incomplete.
pub proof fn law_useless_datagrams_change_nothing(lane: LaneView, now: u128, datagram: Seq<u8>)
    ensures
        ({
            let (after, delivery) = lane.push(now, datagram);
            let fragment = fragment_of(datagram);
            let gone = (lane.frames.len() - alive(lane.frames, now).len()) as nat;
            let late = fragment is Ok && lane.latest is Some && fragment->Ok_0.sequence
                <= lane.latest->Some_0;
            let refused = fragment is Err || (!late && !sound(fragment->Ok_0));
            &&& late || refused ==> {
                &&& after.frames == alive(lane.frames, now)
                &&& after.latest == lane.latest
                &&& after.stats.incomplete_frames == counted(lane.stats.incomplete_frames, gone)
                &&& after.stats.completed_frames == lane.stats.completed_frames
            }
            &&& late ==> delivery is Ok && delivery->Ok_0 is None
                && after.stats.malformed_fragments == lane.stats.malformed_fragments
            &&& refused ==> delivery is Err && after.stats.malformed_fragments == counted(
                lane.stats.malformed_fragments,
                1,
            )
            &&& fragment is Ok <==> datagram.len() > 21 && kind_of(datagram) == Some(
                VideoDatagramKind::Legacy,
            )
        }),
{
    assert(nal_mark()[3] != legacy_mark()[3]);
}

/// The same of fragments of units.
pub proof fn law_useless_unit_datagrams_change_nothing(
    lane: NalLaneView,
    now: u128,
    datagram: Seq<u8>,
)
    ensures
        ({
            let (after, delivery) = lane.push(now, datagram);
            let fragment = nal_fragment_of(datagram);
            let gone = (lane.frames.len() - alive(lane.frames, now).len()) as nat;
            let late = fragment is Ok && lane.latest is Some && fragment->Ok_0.sequence
                <= lane.latest->Some_0;
            let refused = fragment is Err || (!late && !nal_sound(fragment->Ok_0));
            &&& late || refused ==> {
                &&& after.frames == alive(lane.frames, now)
                &&& after.latest == lane.latest
                &&& after.stats.incomplete_frames == counted(lane.stats.incomplete_frames, gone)
                &&& after.stats.completed_frames == lane.stats.completed_frames
            }
            &&& late ==> delivery is Ok && delivery->Ok_0 is None
                && after.stats.malformed_fragments == lane.stats.malformed_fragments
            &&& refused ==> delivery is Err && after.stats.malformed_fragments == counted(
                lane.stats.malformed_fragments,
                1,
            )
            &&& fragment is Ok <==> datagram.len() > 48 && kind_of(datagram) == Some(
                VideoDatagramKind::H264Nal,
            )
        }),
{
}

/// What a lane delivers is what comes out of a push: a message, nothing yet, or a failure.
pub proof fn law_pushes_deliver(
    result: Result<Option<WireMessage>, DcError>,
    delivery: Delivery,
)
    requires
        delivers(result, delivery),
    ensures
        result is Ok <==> delivery is Ok,
        result matches Ok(message) ==> (message is Some <==> delivery->Ok_0 is Some),
        result matches Ok(Some(message)) ==> delivery->Ok_0 == Some(message@),
        result matches Err(error) ==> delivery->Err_0 == error@,
{
}

/// A fragment that says otherwise than the fragments before it, of its frame's length or of their
/// number, ends the frame: nothing of it is delivered or kept. One that agrees is kept, and a frame is
/// delivered only when its parts have the length that all of them told.
pub proof fn law_contradicting_fragments_end_their_frame(
    lane: LaneView,
    now: u128,
    fragment: FragmentView,
)
    requires
        lane.frames.contains_key(fragment.sequence),
        0 <= fragment.index < fragment.count,
    ensures
        ({
            let (after, delivery) = lane.add(now, fragment);
            let content = lane.frames[fragment.sequence].content;
            let agrees = content.total_len == fragment.total_len && content.parts.len()
                == fragment.count;
            &&& !agrees ==> {
                &&& delivery is Err
                &&& after.frames == lane.frames.remove(fragment.sequence)
                &&& after.latest == lane.latest
                &&& after.stats.malformed_fragments == counted(lane.stats.malformed_fragments, 1)
                &&& after.stats.completed_frames == lane.stats.completed_frames
            }
            &&& agrees && (exists|i: int|
                0 <= i < content.parts.len() && i != fragment.index && (#[trigger] content.parts[i])
                    is None) ==> {
                &&& delivery is Ok && delivery->Ok_0 is None
                &&& after.latest == lane.latest
                &&& after.stats == lane.stats
                &&& after.frames.contains_key(fragment.sequence)
                &&& after.frames[fragment.sequence].last == now
                &&& after.frames[fragment.sequence].content.total_len == fragment.total_len
                &&& after.frames[fragment.sequence].content.parts.len() == fragment.count
                &&& after.frames[fragment.sequence].content.parts[fragment.index as int] is Some
            }
            &&& delivery is Err ==> after.frames == lane.frames.remove(fragment.sequence)
                && after.latest == lane.latest && after.stats.completed_frames
                == lane.stats.completed_frames
            &&& delivery is Ok && delivery->Ok_0 is Some ==> joined_parts(
                with_part(content.parts, fragment.index as int, fragment.payload),
            ).len() == fragment.total_len
            &&& delivery is Ok && delivery->Ok_0 is Some ==> {
                &&& agrees
                &&& !after.frames.contains_key(fragment.sequence)
                &&& after.latest == Some(fragment.sequence)
                &&& after.stats.completed_frames == counted(lane.stats.completed_frames, 1)
                &&& delivery->Ok_0->Some_0 is Video || delivery->Ok_0->Some_0 is DesktopUpdate
                &&& delivery->Ok_0->Some_0 is Video ==> delivery->Ok_0->Some_0->Video_sequence
                    == fragment.sequence
                &&& delivery->Ok_0->Some_0 is DesktopUpdate
                    ==> delivery->Ok_0->Some_0->DesktopUpdate_sequence == fragment.sequence
            }
        }),
{
    let content = lane.frames[fragment.sequence].content;
    let more = with_part(content.parts, fragment.index as int, fragment.payload);
    if content.total_len == fragment.total_len && content.parts.len() == fragment.count {
        if exists|i: int|
            0 <= i < content.parts.len() && i != fragment.index && (#[trigger] content.parts[i])
                is None {
            let i = choose|i: int|
                0 <= i < content.parts.len() && i != fragment.index && (#[trigger] content.parts[i])
                    is None;
            assert(more[i] is None);
            assert(!all_arrived(more));
        }
    }
}

/// A fragment that says otherwise of its unit than those before it is refused, and so is a unit that
/// makes the picture longer than a message may be. A unit that has arrived stays as it is, and one is
/// complete only with the length that its fragments told.
pub proof fn law_contradicting_unit_fragments_are_refused(
    slots: Seq<SlotView>,
    fragment: NalFragmentView,
)
    requires
        0 <= fragment.unit_index < slots.len(),
        0 <= fragment.fragment_index < fragment.fragment_count,
    ensures
        ({
            let before = slots[fragment.unit_index as int];
            let after = filled_slot(slots, fragment);
            &&& before is Complete ==> after == Ok::<SlotView, DcErrorView>(before)
            &&& before matches SlotView::Partial { total_len, parts } ==> (total_len
                != fragment.unit_len || parts.len() != fragment.fragment_count ==> after is Err)
            &&& before is Empty && declared_bytes(slots) + fragment.unit_len > 16_777_216 ==> after
                is Err
            &&& before is Empty && declared_bytes(slots) + fragment.unit_len <= 16_777_216
                && fragment.fragment_count > 1 ==> after is Ok && after->Ok_0 is Partial
                && after->Ok_0->Partial_total_len == fragment.unit_len
            &&& !(before is Complete) && after is Ok && after->Ok_0 is Complete
                ==> after->Ok_0->Complete_0.len() == fragment.unit_len
            &&& after is Ok ==> !(after->Ok_0 is Empty)
        }),
{
    let none = none_arrived(fragment.fragment_count as nat);
    let more = with_part(none, fragment.fragment_index as int, fragment.payload);
    if fragment.fragment_count > 1 {
        let other: int = if fragment.fragment_index == 0 {
            1
        } else {
            0
        };
        assert(more[other] is None);
        assert(!all_arrived(more));
    }
}

/// A fragment that says otherwise of its picture than those before it, or whose unit is refused, ends
/// the picture; a picture is delivered only if it is no longer than a message may be.
pub proof fn law_contradicting_units_end_their_picture(
    lane: NalLaneView,
    now: u128,
    fragment: NalFragmentView,
)
    requires
        lane.frames.contains_key(fragment.sequence),
    ensures
        ({
            let (after, delivery) = lane.add(now, fragment);
            let content = lane.frames[fragment.sequence].content;
            let agrees = content.info == fragment.info && content.slots.len()
                == fragment.unit_count;
            &&& !agrees || filled_slot(content.slots, fragment) is Err ==> delivery is Err
            &&& delivery is Err ==> {
                &&& after.frames == lane.frames.remove(fragment.sequence)
                &&& after.latest == lane.latest
                &&& after.stats.malformed_fragments == counted(lane.stats.malformed_fragments, 1)
                &&& after.stats.completed_frames == lane.stats.completed_frames
            }
            &&& delivery is Ok && delivery->Ok_0 is None ==> {
                &&& after.frames.contains_key(fragment.sequence)
                &&& after.frames[fragment.sequence].last == now
                &&& after.frames[fragment.sequence].content.info == fragment.info
                &&& after.latest == lane.latest
                &&& after.stats == lane.stats
            }
            &&& delivery is Ok && delivery->Ok_0 is Some ==> {
                &&& agrees
                &&& !after.frames.contains_key(fragment.sequence)
                &&& after.latest == Some(fragment.sequence)
                &&& after.stats.completed_frames == counted(lane.stats.completed_frames, 1)
                &&& delivery->Ok_0->Some_0 is Video
                &&& delivery->Ok_0->Some_0->Video_sequence == fragment.sequence
                &&& delivery->Ok_0->Some_0->Video_data.len() <= 16_777_216
            }
        }),
{
}

} // verus!
