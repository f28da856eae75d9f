//! Splitting H.264 access units into NAL units.
//!
//! An access unit is either a byte stream, in which a start code of three or four bytes stands
//! before each unit, or a list of units that each stand behind a 32-bit length. A length may hold
//! the bytes of a start code, so a buffer that does not begin like a byte stream and whose lengths
//! account for every byte is a list, whatever bytes it holds.
use crate::bytes::{be_bytes, be_uint, be_value};
use crate::error::{DcError, DcErrorView};
use vstd::prelude::*;

verus! {

/// The three bytes `0, 0, 1` stand at position `at`.
pub open spec fn short_code_at(bytes: Seq<u8>, at: int) -> bool {
    &&& 0 <= at
    &&& at + 3 <= bytes.len()
    &&& bytes[at] == 0
    &&& bytes[at + 1] == 0
    &&& bytes[at + 2] == 1
}

/// The four bytes `0, 0, 0, 1` stand at position `at`.
pub open spec fn long_code_at(bytes: Seq<u8>, at: int) -> bool {
    &&& 0 <= at
    &&& at + 4 <= bytes.len()
    &&& bytes[at] == 0
    &&& short_code_at(bytes, at + 1)
}

/// The start codes from position `at` on, each as the position of its first byte and the
/// position behind its last.
pub open spec fn start_codes(bytes: Seq<u8>, at: int) -> Seq<(int, int)>
    decreases bytes.len() - at,
{
    if at + 3 > bytes.len() {
        Seq::empty()
    } else if short_code_at(bytes, at) {
        seq![(at, at + 3)] + start_codes(bytes, at + 3)
    } else if long_code_at(bytes, at) {
        seq![(at, at + 4)] + start_codes(bytes, at + 4)
    } else {
        start_codes(bytes, at + 1)
    }
}

/// Where the unit behind a start code ends: at the next start code, or at the end.
pub open spec fn unit_end(bytes: Seq<u8>, codes: Seq<(int, int)>, index: int) -> int {
    if index + 1 < codes.len() {
        codes[index + 1].0
    } else {
        bytes.len() as int
    }
}

/// The units behind the first `count` start codes, without the empty ones.
pub open spec fn units_behind(bytes: Seq<u8>, codes: Seq<(int, int)>, count: nat) -> Seq<Seq<u8>>
    decreases count,
{
    if count == 0 {
        Seq::empty()
    } else {
        let index = count - 1;
        let before = units_behind(bytes, codes, index as nat);
        let start = codes[index].1;
        let end = unit_end(bytes, codes, index);
        if start < end {
            before.push(bytes.subrange(start, end))
        } else {
            before
        }
    }
}

/// The units of a list in which each stands behind a 32-bit length, from position `at` on.
pub open spec fn prefixed_units(bytes: Seq<u8>, at: int) -> Result<Seq<Seq<u8>>, DcErrorView>
    decreases bytes.len() - at,
{
    if at >= bytes.len() {
        Ok(Seq::empty())
    } else if at + 4 > bytes.len() {
        Err(DcErrorView::Codec("truncated AVCC NAL length"@))
    } else {
        let start = at + 4;
        let end = start + be_value(bytes.subrange(at, start));
        if end > usize::MAX {
            Err(DcErrorView::Codec("AVCC NAL length overflowed"@))
        } else if end > bytes.len() {
            Err(DcErrorView::Codec("truncated AVCC NAL payload"@))
        } else {
            match prefixed_units(bytes, end) {
                Ok(units) => Ok(seq![bytes.subrange(start, end)] + units),
                Err(error) => Err(error),
            }
        }
    }
}

/// Behind `zeros` bytes that are zero, at least two, stand a one and the first byte of a unit that
/// has a type.
pub open spec fn opens_stream(bytes: Seq<u8>, zeros: int) -> bool {
    &&& 2 <= zeros
    &&& zeros + 1 < bytes.len()
    &&& forall|i: int| 0 <= i < zeros ==> #[trigger] bytes[i] == 0
    &&& bytes[zeros] == 1
    &&& bytes[zeros + 1] % 32 != 0
}

/// The buffer begins with a start code, behind any number of zeros, and with a unit of a type
/// other than zero, which is the type of no unit.
pub open spec fn begins_stream(bytes: Seq<u8>) -> bool {
    exists|zeros: int| #[trigger] opens_stream(bytes, zeros)
}

/// The lengths of a list account for every byte, and no unit is empty.
pub open spec fn whole_list(bytes: Seq<u8>) -> bool {
    prefixed_units(bytes, 0) matches Ok(units) && forall|i: int|
        0 <= i < units.len() ==> (#[trigger] units[i]).len() > 0
}

/// The buffer is read as a byte stream: it begins like one, or it holds a start code and is no
/// list.
pub open spec fn is_stream(bytes: Seq<u8>) -> bool {
    begins_stream(bytes) || (start_codes(bytes, 0).len() > 0 && !whole_list(bytes))
}

/// The NAL units of an access unit.
pub open spec fn nal_units(bytes: Seq<u8>) -> Result<Seq<Seq<u8>>, DcErrorView> {
    let codes = start_codes(bytes, 0);
    if is_stream(bytes) {
        Ok(units_behind(bytes, codes, codes.len()))
    } else {
        prefixed_units(bytes, 0)
    }
}

/// The contents of a list of slices.
pub open spec fn contents(slices: Seq<&[u8]>) -> Seq<Seq<u8>> {
    slices.map_values(|slice: &[u8]| slice@)
}

fn find_start_codes(bytes: &[u8]) -> (codes: Vec<(usize, usize)>)
    ensures
        codes@.map_values(|code: (usize, usize)| (code.0 as int, code.1 as int)) == start_codes(
            bytes@,
            0,
        ),
        forall|i: int| 0 <= i < codes@.len() ==> (#[trigger] codes@[i]).0 < codes@[i].1 <= bytes@.len(),
{
    let mut codes: Vec<(usize, usize)> = Vec::new();
    let mut index: usize = 0;
    let ghost pair = |code: (usize, usize)| (code.0 as int, code.1 as int);
    assert(codes@.map_values(pair) + start_codes(bytes@, 0) =~= start_codes(bytes@, 0));
    while bytes.len() >= 3 && index <= bytes.len() - 3
        invariant
            index <= bytes@.len(),
            pair == (|code: (usize, usize)| (code.0 as int, code.1 as int)),
            codes@.map_values(pair) + start_codes(bytes@, index as int) == start_codes(bytes@, 0),
            forall|i: int|
                0 <= i < codes@.len() ==> (#[trigger] codes@[i]).0 < codes@[i].1 <= bytes@.len(),
        decreases bytes@.len() - index,
    {
        let ghost before = codes@;
        if bytes[index] == 0 && bytes[index + 1] == 0 && bytes[index + 2] == 1 {
            codes.push((index, index + 3));
            assert(codes@.map_values(pair) =~= before.map_values(pair) + seq![
                (index as int, index + 3),
            ]);
            assert(codes@.map_values(pair) + start_codes(bytes@, index + 3) =~= before.map_values(
                pair,
            ) + start_codes(bytes@, index as int));
            index = index + 3;
        } else if index < bytes.len() - 3 && bytes[index] == 0 && bytes[index + 1] == 0
            && bytes[index + 2] == 0 && bytes[index + 3] == 1 {
            codes.push((index, index + 4));
            assert(codes@.map_values(pair) =~= before.map_values(pair) + seq![
                (index as int, index + 4),
            ]);
            assert(codes@.map_values(pair) + start_codes(bytes@, index + 4) =~= before.map_values(
                pair,
            ) + start_codes(bytes@, index as int));
            index = index + 4;
        } else {
            index = index + 1;
        }
    }
    assert(codes@.map_values(pair) + Seq::empty() =~= codes@.map_values(pair));
    codes
}

fn split_avcc<'a>(bytes: &'a [u8]) -> (result: Result<Vec<&'a [u8]>, DcError>)
    ensures
        match result {
            Ok(units) => prefixed_units(bytes@, 0) == Ok::<Seq<Seq<u8>>, DcErrorView>(
                contents(units@),
            ),
            Err(e) => prefixed_units(bytes@, 0) == Err::<Seq<Seq<u8>>, DcErrorView>(e@),
        },
{
    let mut output: Vec<&'a [u8]> = Vec::new();
    let mut offset: usize = 0;
    assert(forall|rest: Seq<Seq<u8>>| contents(output@) + rest =~= rest);
    while offset < bytes.len()
        invariant
            offset <= bytes@.len(),
            match prefixed_units(bytes@, offset as int) {
                Ok(rest) => prefixed_units(bytes@, 0) == Ok::<Seq<Seq<u8>>, DcErrorView>(
                    contents(output@) + rest,
                ),
                Err(error) => prefixed_units(bytes@, 0) == Err::<Seq<Seq<u8>>, DcErrorView>(error),
            },
        decreases bytes@.len() - offset,
    {
        if bytes.len() - offset < 4 {
            return Err(DcError::codec("truncated AVCC NAL length"));
        }
        let start: usize = offset + 4;
        let prefix = vstd::slice::slice_subrange(bytes, offset, start);
        let length: u64 = be_uint(prefix);
        proof {
            crate::bytes::lemma_be_value_bound(prefix@);
            crate::bytes::lemma_byte_range();
        }
        let end: usize = match start.checked_add(length as usize) {
            Some(end) => end,
            None => {
                return Err(DcError::codec("AVCC NAL length overflowed"));
            },
        };
        if end > bytes.len() {
            return Err(DcError::codec("truncated AVCC NAL payload"));
        }
        let unit = vstd::slice::slice_subrange(bytes, start, end);
        let ghost before = output@;
        output.push(unit);
        proof {
            assert(contents(output@) =~= contents(before).push(unit@));
            if let Ok(rest) = prefixed_units(bytes@, end as int) {
                assert(contents(before) + (seq![unit@] + rest) =~= contents(output@) + rest);
            }
        }
        offset = end;
    }
    assert(contents(output@) + Seq::empty() =~= contents(output@));
    Ok(output)
}

/// Tells whether a buffer begins like a byte stream.
fn starts_like_stream(bytes: &[u8]) -> (result: bool)
    ensures
        result == begins_stream(bytes@),
{
    let mut zeros: usize = 0;
    while zeros < bytes.len() && bytes[zeros] == 0
        invariant
            zeros <= bytes@.len(),
            forall|i: int| 0 <= i < zeros ==> #[trigger] bytes@[i] == 0,
        decreases bytes@.len() - zeros,
    {
        zeros = zeros + 1;
    }
    let result = zeros >= 2 && zeros < bytes.len() && bytes.len() - zeros > 1 && bytes[zeros] == 1
        && bytes[zeros + 1] % 32 != 0;
    proof {
        if result {
            assert(opens_stream(bytes@, zeros as int));
        }
        if begins_stream(bytes@) {
            let other = choose|other: int| #[trigger] opens_stream(bytes@, other);
            assert(bytes@[other] == 1);
            if other < zeros {
                assert(bytes@[other] == 0);
            }
            if zeros < other {
                assert(bytes@[zeros as int] == 0);
            }
            assert(other == zeros);
        }
    }
    result
}

/// Tells whether the lengths of a list account for every byte and no unit is empty.
fn is_whole_list(bytes: &[u8]) -> (result: bool)
    ensures
        result == whole_list(bytes@),
{
    let units = match split_avcc(bytes) {
        Ok(units) => units,
        Err(_) => {
            return false;
        },
    };
    let ghost all = contents(units@);
    let mut index: usize = 0;
    while index < units.len()
        invariant
            index <= units@.len(),
            all == contents(units@),
            prefixed_units(bytes@, 0) == Ok::<Seq<Seq<u8>>, DcErrorView>(all),
            forall|i: int| 0 <= i < index ==> (#[trigger] all[i]).len() > 0,
        decreases units@.len() - index,
    {
        let unit = units[index];
        assert(all[index as int] == unit@);
        if unit.len() == 0 {
            assert(prefixed_units(bytes@, 0)->Ok_0[index as int].len() == 0);
            return false;
        }
        index = index + 1;
    }
    true
}

/// Split an H.264 access unit encoded as Annex-B or four-byte-length AVCC.
pub fn split_h264_nal_units<'a>(bytes: &'a [u8]) -> (result: Result<Vec<&'a [u8]>, DcError>)
    ensures
        match result {
            Ok(units) => nal_units(bytes@) == Ok::<Seq<Seq<u8>>, DcErrorView>(contents(units@)),
            Err(e) => nal_units(bytes@) == Err::<Seq<Seq<u8>>, DcErrorView>(e@),
        },
{
    let boundaries = find_start_codes(bytes);
    let ghost codes = start_codes(bytes@, 0);
    assert(codes.len() == boundaries@.len());
    if !starts_like_stream(bytes) && (boundaries.len() == 0 || is_whole_list(bytes)) {
        return split_avcc(bytes);
    }
    let mut units: Vec<&'a [u8]> = Vec::new();
    let mut position: usize = 0;
    assert(contents(units@) =~= Seq::empty());
    while position < boundaries.len()
        invariant
            position <= boundaries@.len(),
            codes == boundaries@.map_values(
                |code: (usize, usize)| (code.0 as int, code.1 as int),
            ),
            forall|i: int|
                0 <= i < boundaries@.len() ==> (#[trigger] boundaries@[i]).0 < boundaries@[i].1
                    <= bytes@.len(),
            contents(units@) == units_behind(bytes@, codes, position as nat),
        decreases boundaries@.len() - position,
    {
        let start: usize = boundaries[position].1;
        let end: usize = if position + 1 < boundaries.len() {
            boundaries[position + 1].0
        } else {
            bytes.len()
        };
        assert(codes[position as int].1 == start);
        assert(unit_end(bytes@, codes, position as int) == end);
        if start < end {
            let unit = vstd::slice::slice_subrange(bytes, start, end);
            let ghost before = units@;
            units.push(unit);
            assert(contents(units@) =~= contents(before).push(unit@));
        }
        position = position + 1;
    }
    Ok(units)
}

/// The type of a NAL unit: the five low bits of its first byte.
pub open spec fn unit_type(unit: Seq<u8>) -> u8 {
    unit[0] % 32
}

/// The type of the slices of a picture that needs no earlier one.
pub const IDR_SLICE: u8 = 5;

/// Whether one of the units is a slice of a picture that needs no earlier one.
pub open spec fn holds_keyframe(units: Seq<Seq<u8>>) -> bool {
    exists|i: int|
        0 <= i < units.len() && (#[trigger] units[i]).len() > 0 && unit_type(units[i]) == IDR_SLICE
}

/// Tells whether an access unit holds a picture that needs no earlier one.
pub fn h264_access_unit_is_keyframe(bytes: &[u8]) -> (result: Result<bool, DcError>)
    ensures
        match result {
            Ok(keyframe) => nal_units(bytes@) is Ok && keyframe == holds_keyframe(
                nal_units(bytes@)->Ok_0,
            ),
            Err(e) => nal_units(bytes@) == Err::<Seq<Seq<u8>>, DcErrorView>(e@),
        },
{
    let units = split_h264_nal_units(bytes)?;
    let ghost all = contents(units@);
    let mut index: usize = 0;
    while index < units.len()
        invariant
            index <= units@.len(),
            all == contents(units@),
            nal_units(bytes@) == Ok::<Seq<Seq<u8>>, DcErrorView>(all),
            forall|i: int|
                0 <= i < index ==> !((#[trigger] all[i]).len() > 0 && unit_type(all[i])
                    == IDR_SLICE),
        decreases units@.len() - index,
    {
        let unit = units[index];
        assert(all[index as int] == unit@);
        if unit.len() > 0 && unit[0] % 32 == IDR_SLICE {
            return Ok(true);
        }
        index = index + 1;
    }
    Ok(false)
}

/// The four-byte start code.
pub open spec fn start_code() -> Seq<u8> {
    seq![0u8, 0u8, 0u8, 1u8]
}

/// The byte stream of a list of units, each behind a four-byte start code.
pub open spec fn annex_b(units: Seq<Seq<u8>>) -> Seq<u8>
    decreases units.len(),
{
    if units.len() == 0 {
        Seq::empty()
    } else {
        annex_b(units.drop_last()) + start_code() + units.last()
    }
}

/// The unit holds data and no start code.
pub open spec fn plain_unit(unit: Seq<u8>) -> bool {
    &&& unit.len() > 0
    &&& forall|i: int| !short_code_at(unit, i)
}

/// Appends a start code and a unit to a byte stream.
pub(crate) fn put_unit(out: &mut Vec<u8>, unit: &[u8])
    ensures
        final(out)@ == old(out)@ + start_code() + unit@,
{
    out.push(0);
    out.push(0);
    out.push(0);
    out.push(1);
    crate::bytes::put_slice(out, unit);
    assert(out@ =~= old(out)@ + start_code() + unit@);
}

/// Where the start code of a unit stands in the byte stream of a list.
spec fn code_position(units: Seq<Seq<u8>>, index: nat) -> int
    decreases index,
{
    if index == 0 {
        0
    } else {
        code_position(units, (index - 1) as nat) + 4 + units[index - 1].len()
    }
}

proof fn lemma_code_position_prefix(units: Seq<Seq<u8>>, index: nat)
    requires
        index < units.len(),
    ensures
        code_position(units.drop_last(), index) == code_position(units, index),
    decreases index,
{
    if index > 0 {
        lemma_code_position_prefix(units, (index - 1) as nat);
    }
}

proof fn lemma_code_position_grows(units: Seq<Seq<u8>>, first: nat, second: nat)
    requires
        first <= second,
    ensures
        code_position(units, first) <= code_position(units, second),
        first < second ==> code_position(units, first) + 4 + units[first as int].len()
            <= code_position(units, second),
    decreases second,
{
    if first < second {
        lemma_code_position_grows(units, first, (second - 1) as nat);
    }
}

/// What stands where in the byte stream of a list of units.
proof fn lemma_annex_b_layout(units: Seq<Seq<u8>>)
    ensures
        annex_b(units).len() == code_position(units, units.len()),
        forall|k: nat|
            #![trigger code_position(units, k)]
            k < units.len() ==> {
                let at = code_position(units, k);
                &&& 0 <= at
                &&& at + 4 + units[k as int].len() <= annex_b(units).len()
                &&& long_code_at(annex_b(units), at)
                &&& annex_b(units).subrange(at + 4, at + 4 + units[k as int].len())
                    == units[k as int]
            },
    decreases units.len(),
{
    if units.len() > 0 {
        let front = units.drop_last();
        lemma_annex_b_layout(front);
        let whole = annex_b(units);
        let last = (units.len() - 1) as nat;
        lemma_code_position_prefix(units, last);
        assert forall|k: nat| #![trigger code_position(units, k)] k < units.len() implies {
            let at = code_position(units, k);
            &&& 0 <= at
            &&& at + 4 + units[k as int].len() <= whole.len()
            &&& long_code_at(whole, at)
            &&& whole.subrange(at + 4, at + 4 + units[k as int].len()) == units[k as int]
        } by {
            let at = code_position(units, k);
            if k < last {
                lemma_code_position_prefix(units, k);
                assert(code_position(front, k) == at);
                assert(long_code_at(annex_b(front), at));
                assert(front[k as int] == units[k as int]);
                assert(whole.subrange(at + 4, at + 4 + units[k as int].len()) =~= annex_b(
                    front,
                ).subrange(at + 4, at + 4 + units[k as int].len()));
            } else {
                assert(at == annex_b(front).len());
                assert(whole.subrange(at + 4, at + 4 + units[k as int].len()) =~= units[k as int]);
            }
        }
    }
}

/// Positions without a start code are passed over.
proof fn lemma_pass_over(bytes: Seq<u8>, at: int, end: int)
    requires
        0 <= at <= end <= bytes.len(),
        forall|i: int| at <= i < end ==> !short_code_at(bytes, i) && !long_code_at(bytes, i),
    ensures
        start_codes(bytes, at) == start_codes(bytes, end),
    decreases end - at,
{
    if at < end {
        lemma_pass_over(bytes, at + 1, end);
        assert(!short_code_at(bytes, at) && !long_code_at(bytes, at));
        if at + 3 > bytes.len() {
            assert(start_codes(bytes, end) =~= Seq::empty());
        }
    }
}

/// The start codes of a byte stream, from the code of one unit on.
proof fn lemma_codes_of_stream(units: Seq<Seq<u8>>, index: nat)
    requires
        index <= units.len(),
        forall|i: int| 0 <= i < units.len() ==> plain_unit(#[trigger] units[i]),
    ensures
        start_codes(annex_b(units), code_position(units, index)) == Seq::new(
            (units.len() - index) as nat,
            |j: int|
                (
                    code_position(units, (index + j) as nat),
                    code_position(units, (index + j) as nat) + 4,
                ),
        ),
    decreases units.len() - index,
{
    let bytes = annex_b(units);
    let at = code_position(units, index);
    lemma_annex_b_layout(units);
    if index == units.len() {
        assert(start_codes(bytes, at) =~= Seq::empty());
    } else {
        let unit = units[index as int];
        let next = code_position(units, index + 1);
        assert(next == at + 4 + unit.len());
        assert(long_code_at(bytes, at));
        lemma_code_position_grows(units, index + 1, units.len());
        lemma_codes_of_stream(units, index + 1);
        assert forall|i: int| at + 4 <= i < next implies !short_code_at(bytes, i)
            && !long_code_at(bytes, i) by {
            assert(plain_unit(unit));
            assert(bytes.subrange(at + 4, next) == unit);
            if index + 1 < units.len() {
                assert(long_code_at(bytes, code_position(units, index + 1)));
            }
            lemma_no_code_in_unit(bytes, at + 4, next, i);
            if i + 1 < next {
                lemma_no_code_in_unit(bytes, at + 4, next, i + 1);
            }
        }
        lemma_pass_over(bytes, at + 4, next);
        assert(start_codes(bytes, at) == seq![(at, at + 4)] + start_codes(bytes, at + 4));
        assert(seq![(at, at + 4)] + start_codes(bytes, next) =~= Seq::new(
            (units.len() - index) as nat,
            |j: int|
                (
                    code_position(units, (index + j) as nat),
                    code_position(units, (index + j) as nat) + 4,
                ),
        ));
    }
}

/// No short start code begins inside a plain unit that is followed by a long one or by the end.
proof fn lemma_no_code_in_unit(bytes: Seq<u8>, start: int, end: int, at: int)
    requires
        0 <= start <= at < end <= bytes.len(),
        plain_unit(bytes.subrange(start, end)),
        end == bytes.len() || long_code_at(bytes, end),
    ensures
        !short_code_at(bytes, at),
{
    let unit = bytes.subrange(start, end);
    if short_code_at(bytes, at) {
        if at + 3 <= end {
            assert(short_code_at(unit, at - start));
        } else {
            assert(bytes[at + 2] == 0);
        }
    }
}

proof fn lemma_units_of_stream(units: Seq<Seq<u8>>, count: nat)
    requires
        count <= units.len(),
        forall|i: int| 0 <= i < units.len() ==> plain_unit(#[trigger] units[i]),
    ensures
        units_behind(annex_b(units), start_codes(annex_b(units), 0), count) == units.take(
            count as int,
        ),
    decreases count,
{
    let bytes = annex_b(units);
    let codes = start_codes(bytes, 0);
    lemma_codes_of_stream(units, 0);
    if count > 0 {
        let index = (count - 1) as nat;
        lemma_units_of_stream(units, index);
        lemma_annex_b_layout(units);
        let at = code_position(units, index);
        assert(codes[index as int] == (at, at + 4));
        assert(plain_unit(units[index as int]));
        assert(unit_end(bytes, codes, index as int) == code_position(units, count)) by {
            if count < units.len() {
                assert(codes[count as int] == (
                    code_position(units, count),
                    code_position(units, count) + 4,
                ));
            }
        }
        assert(units.take(count as int) =~= units.take(index as int).push(units[index as int]));
    } else {
        assert(units.take(0) =~= Seq::empty());
    }
}

/// Splitting a byte stream gives back the units it was made of, where the units hold data and no
/// start code. A stream whose first unit has type zero is left out where its bytes also make a
/// list.
pub proof fn law_split_reads_back_annex_b(units: Seq<Seq<u8>>)
    requires
        units.len() > 0,
        forall|i: int| 0 <= i < units.len() ==> plain_unit(#[trigger] units[i]),
        unit_type(units[0]) != 0 || !whole_list(annex_b(units)),
    ensures
        nal_units(annex_b(units)) == Ok::<Seq<Seq<u8>>, DcErrorView>(units),
{
    lemma_codes_of_stream(units, 0);
    lemma_units_of_stream(units, units.len());
    assert(units.take(units.len() as int) =~= units);
    let bytes = annex_b(units);
    lemma_annex_b_layout(units);
    assert(code_position(units, 0) == 0);
    assert(plain_unit(units[0]));
    assert(bytes[4] == bytes.subrange(4, 4 + units[0].len() as int)[0]);
    if unit_type(units[0]) != 0 {
        assert(opens_stream(bytes, 3));
    }
}

/// A start code of four bytes or of three.
pub open spec fn code_bytes(long: bool) -> Seq<u8> {
    if long {
        start_code()
    } else {
        seq![0u8, 0u8, 1u8]
    }
}

/// The byte stream of a list of units, each behind a start code of the length that the second
/// list gives.
pub open spec fn byte_stream(units: Seq<Seq<u8>>, longs: Seq<bool>) -> Seq<u8>
    decreases units.len(),
{
    if units.len() == 0 {
        Seq::empty()
    } else {
        byte_stream(units.drop_last(), longs.drop_last()) + code_bytes(longs.last())
            + units.last()
    }
}

/// The unit holds data and no start code, and does not end in a zero, which a start code behind
/// it could take for its own.
pub open spec fn closed_unit(unit: Seq<u8>) -> bool {
    &&& plain_unit(unit)
    &&& unit.last() != 0
}

/// Where the start code of a unit stands in a byte stream.
spec fn stream_position(units: Seq<Seq<u8>>, longs: Seq<bool>, index: int) -> int {
    byte_stream(units.take(index), longs.take(index)).len() as int
}

/// The stream of the first units is where the stream of all begins.
proof fn lemma_stream_prefix(units: Seq<Seq<u8>>, longs: Seq<bool>, index: int)
    requires
        units.len() == longs.len(),
        0 <= index <= units.len(),
    ensures
        stream_position(units, longs, index) <= byte_stream(units, longs).len(),
        byte_stream(units, longs).take(stream_position(units, longs, index)) == byte_stream(
            units.take(index),
            longs.take(index),
        ),
    decreases units.len(),
{
    if index == units.len() {
        assert(units.take(index) =~= units);
        assert(longs.take(index) =~= longs);
        let whole = byte_stream(units, longs);
        assert(whole.take(whole.len() as int) =~= whole);
    } else {
        let few = units.drop_last();
        let fewer = longs.drop_last();
        assert(few.take(index) =~= units.take(index));
        assert(fewer.take(index) =~= longs.take(index));
        lemma_stream_prefix(few, fewer, index);
        let at = stream_position(units, longs, index);
        assert(byte_stream(units, longs).take(at) =~= byte_stream(few, fewer).take(at));
    }
}

/// What stands at the place of one unit in a byte stream.
proof fn lemma_stream_unit(units: Seq<Seq<u8>>, longs: Seq<bool>, index: int)
    requires
        units.len() == longs.len(),
        0 <= index < units.len(),
    ensures
        ({
            let bytes = byte_stream(units, longs);
            let at = stream_position(units, longs, index);
            let start = at + code_bytes(longs[index]).len();
            let end = start + units[index].len();
            &&& 0 <= at < start <= end <= bytes.len()
            &&& end == stream_position(units, longs, index + 1)
            &&& if longs[index] {
                !short_code_at(bytes, at) && long_code_at(bytes, at)
            } else {
                short_code_at(bytes, at)
            }
            &&& bytes.subrange(start, end) == units[index]
        }),
{
    let bytes = byte_stream(units, longs);
    let at = stream_position(units, longs, index);
    let code = code_bytes(longs[index]);
    let start = at + code.len();
    let end = start + units[index].len();
    let few = units.take(index + 1);
    let fewer = longs.take(index + 1);
    assert(few.drop_last() =~= units.take(index));
    assert(fewer.drop_last() =~= longs.take(index));
    let front = byte_stream(units.take(index), longs.take(index));
    assert(byte_stream(few, fewer) == front + code + units[index]);
    lemma_stream_prefix(units, longs, index + 1);
    let part = bytes.take(end);
    assert(part == front + code + units[index]);
    assert forall|i: int| 0 <= i < code.len() implies bytes[at + i] == code[i] by {
        assert(part[at + i] == code[i]);
    }
    assert(code.len() == if longs[index] {
        4int
    } else {
        3
    });
    assert(bytes[at] == code[0] && bytes[at + 1] == code[1] && bytes[at + 2] == code[2]) by {
        assert(bytes[at + 0] == code[0]);
    }
    if longs[index] {
        assert(bytes[at + 3] == code[3]);
    }
    assert(bytes.subrange(start, end) =~= part.subrange(start, end));
    assert(part.subrange(start, end) =~= units[index]);
}

/// No start code begins inside a unit that holds none and does not end in a zero.
proof fn lemma_no_code_in_closed_unit(bytes: Seq<u8>, start: int, end: int, at: int)
    requires
        0 <= start <= at < end <= bytes.len(),
        closed_unit(bytes.subrange(start, end)),
    ensures
        !short_code_at(bytes, at),
        !long_code_at(bytes, at),
{
    let unit = bytes.subrange(start, end);
    assert(bytes[end - 1] == unit.last());
    if short_code_at(bytes, at) {
        if at + 3 <= end {
            assert(short_code_at(unit, at - start));
        }
        assert(false);
    }
    if long_code_at(bytes, at) {
        if at + 4 <= end {
            assert(short_code_at(unit, at + 1 - start));
        }
        assert(false);
    }
}

/// The start codes of a byte stream, from the code of one unit on.
proof fn lemma_codes_of_byte_stream(units: Seq<Seq<u8>>, longs: Seq<bool>, index: int)
    requires
        units.len() == longs.len(),
        0 <= index <= units.len(),
        forall|i: int| 0 <= i < units.len() ==> closed_unit(#[trigger] units[i]),
    ensures
        start_codes(byte_stream(units, longs), stream_position(units, longs, index)) == Seq::new(
            (units.len() - index) as nat,
            |j: int|
                (
                    stream_position(units, longs, index + j),
                    stream_position(units, longs, index + j) + code_bytes(longs[index + j]).len(),
                ),
        ),
    decreases units.len() - index,
{
    let bytes = byte_stream(units, longs);
    let at = stream_position(units, longs, index);
    let codes = Seq::new(
        (units.len() - index) as nat,
        |j: int|
            (
                stream_position(units, longs, index + j),
                stream_position(units, longs, index + j) + code_bytes(longs[index + j]).len(),
            ),
    );
    if index == units.len() {
        assert(units.take(index) =~= units);
        assert(longs.take(index) =~= longs);
        assert(start_codes(bytes, at) =~= Seq::empty());
        assert(codes =~= Seq::empty());
    } else {
        let start = at + code_bytes(longs[index]).len();
        let next = stream_position(units, longs, index + 1);
        lemma_stream_unit(units, longs, index);
        lemma_codes_of_byte_stream(units, longs, index + 1);
        assert(closed_unit(units[index]));
        assert forall|i: int| start <= i < next implies !short_code_at(bytes, i) && !long_code_at(
            bytes,
            i,
        ) by {
            lemma_no_code_in_closed_unit(bytes, start, next, i);
        }
        lemma_pass_over(bytes, start, next);
        assert(start_codes(bytes, at) == seq![(at, start as int)] + start_codes(bytes, start as int));
        assert(seq![(at, start as int)] + start_codes(bytes, next) =~= codes);
    }
}

proof fn lemma_units_of_byte_stream(units: Seq<Seq<u8>>, longs: Seq<bool>, count: nat)
    requires
        units.len() == longs.len(),
        count <= units.len(),
        forall|i: int| 0 <= i < units.len() ==> closed_unit(#[trigger] units[i]),
    ensures
        units_behind(
            byte_stream(units, longs),
            start_codes(byte_stream(units, longs), 0),
            count,
        ) == units.take(count as int),
    decreases count,
{
    let bytes = byte_stream(units, longs);
    let codes = start_codes(bytes, 0);
    lemma_codes_of_byte_stream(units, longs, 0);
    assert(stream_position(units, longs, 0) == 0);
    if count > 0 {
        let index = count - 1;
        lemma_units_of_byte_stream(units, longs, index as nat);
        lemma_stream_unit(units, longs, index);
        assert(closed_unit(units[index]));
        assert(codes[index].1 == stream_position(units, longs, index) + code_bytes(
            longs[index],
        ).len());
        assert(unit_end(bytes, codes, index) == stream_position(units, longs, count as int)) by {
            if count < units.len() {
                assert(codes[count as int].0 == stream_position(units, longs, count as int));
            } else {
                assert(units.take(count as int) =~= units);
                assert(longs.take(count as int) =~= longs);
            }
        }
        assert(units.take(count as int) =~= units.take(index).push(units[index]));
    } else {
        assert(units.take(0) =~= Seq::empty());
    }
}

/// A byte stream whose first unit has a type begins like one.
proof fn lemma_byte_stream_begins(units: Seq<Seq<u8>>, longs: Seq<bool>)
    requires
        units.len() == longs.len(),
        units.len() > 0,
        closed_unit(units[0]),
        unit_type(units[0]) != 0,
    ensures
        begins_stream(byte_stream(units, longs)),
{
    let bytes = byte_stream(units, longs);
    lemma_stream_unit(units, longs, 0);
    assert(stream_position(units, longs, 0) == 0);
    if longs[0] {
        assert(bytes[4] == bytes.subrange(4, 4 + units[0].len() as int)[0]);
        assert(opens_stream(bytes, 3));
    } else {
        assert(bytes[3] == bytes.subrange(3, 3 + units[0].len() as int)[0]);
        assert(opens_stream(bytes, 2));
    }
}

/// Splitting a byte stream gives back the units it was made of, whichever of them stand behind a
/// start code of three bytes and whichever behind one of four, where the units hold data and no
/// start code and do not end in a zero. A stream whose first unit has type zero is left out where
/// its bytes also make a list.
pub proof fn law_split_reads_back_byte_stream(units: Seq<Seq<u8>>, longs: Seq<bool>)
    requires
        units.len() == longs.len(),
        forall|i: int| 0 <= i < units.len() ==> closed_unit(#[trigger] units[i]),
        units.len() == 0 || unit_type(units[0]) != 0 || !whole_list(byte_stream(units, longs)),
    ensures
        nal_units(byte_stream(units, longs)) == Ok::<Seq<Seq<u8>>, DcErrorView>(units),
{
    lemma_codes_of_byte_stream(units, longs, 0);
    assert(stream_position(units, longs, 0) == 0);
    if units.len() == 0 {
        assert(units =~= Seq::empty());
        assert(!begins_stream(byte_stream(units, longs)));
    } else {
        lemma_units_of_byte_stream(units, longs, units.len());
        assert(units.take(units.len() as int) =~= units);
        if unit_type(units[0]) != 0 {
            lemma_byte_stream_begins(units, longs);
        }
    }
}

/// A list of units, each behind its length as a 32-bit number.
pub open spec fn length_prefixed(units: Seq<Seq<u8>>) -> Seq<u8>
    decreases units.len(),
{
    if units.len() == 0 {
        Seq::empty()
    } else {
        length_prefixed(units.drop_last()) + be_bytes(units.last().len(), 4) + units.last()
    }
}

/// A cut after `length` bytes separates two units of a list, or stands at one of its ends.
pub open spec fn between_units(units: Seq<Seq<u8>>, length: int) -> bool {
    exists|count: int|
        0 <= count <= units.len() && length == #[trigger] length_prefixed(units.take(count)).len()
}

/// The list of the first units is where the list of all begins.
proof fn lemma_list_prefix(units: Seq<Seq<u8>>, index: int)
    requires
        0 <= index <= units.len(),
    ensures
        length_prefixed(units.take(index)).len() <= length_prefixed(units).len(),
        length_prefixed(units).take(length_prefixed(units.take(index)).len() as int)
            == length_prefixed(units.take(index)),
    decreases units.len(),
{
    let whole = length_prefixed(units);
    if index == units.len() {
        assert(units.take(index) =~= units);
        assert(whole.take(whole.len() as int) =~= whole);
    } else {
        let few = units.drop_last();
        assert(few.take(index) =~= units.take(index));
        lemma_list_prefix(few, index);
        let at = length_prefixed(units.take(index)).len() as int;
        assert(whole.take(at) =~= length_prefixed(few).take(at));
    }
}

/// What stands at the place of one unit in a list.
proof fn lemma_list_unit(units: Seq<Seq<u8>>, index: int)
    requires
        0 <= index < units.len(),
        units[index].len() <= u32::MAX,
    ensures
        ({
            let bytes = length_prefixed(units);
            let at = length_prefixed(units.take(index)).len() as int;
            let end = at + 4 + units[index].len();
            &&& end == length_prefixed(units.take(index + 1)).len()
            &&& end <= bytes.len()
            &&& be_value(bytes.subrange(at, at + 4)) == units[index].len()
            &&& bytes.subrange(at + 4, end) == units[index]
        }),
{
    let bytes = length_prefixed(units);
    let front = length_prefixed(units.take(index));
    let at = front.len() as int;
    let length = be_bytes(units[index].len(), 4);
    let end = at + 4 + units[index].len();
    crate::bytes::lemma_byte_range();
    crate::bytes::law_be_bytes_read_back(units[index].len(), 4);
    assert(units.take(index + 1).drop_last() =~= units.take(index));
    assert(length_prefixed(units.take(index + 1)) == front + length + units[index]);
    lemma_list_prefix(units, index + 1);
    let part = bytes.take(end);
    assert(part == front + length + units[index]);
    assert(bytes.subrange(at, at + 4) =~= part.subrange(at, at + 4));
    assert(part.subrange(at, at + 4) =~= length);
    assert(bytes.subrange(at + 4, end) =~= part.subrange(at + 4, end));
    assert(part.subrange(at + 4, end) =~= units[index]);
}

proof fn lemma_list_positions_grow(units: Seq<Seq<u8>>, first: int, second: int)
    requires
        0 <= first <= second <= units.len(),
        forall|i: int| 0 <= i < units.len() ==> (#[trigger] units[i]).len() <= u32::MAX,
    ensures
        first < second ==> length_prefixed(units.take(first + 1)).len() <= length_prefixed(
            units.take(second),
        ).len(),
        first < second ==> length_prefixed(units.take(first)).len() + 4 <= length_prefixed(
            units.take(second),
        ).len(),
    decreases second - first,
{
    if first < second {
        assert(units[first].len() <= u32::MAX);
        lemma_list_unit(units, first);
        lemma_list_positions_grow(units, first + 1, second);
    }
}

/// Reading the first `length` bytes of a list from the place of one unit on.
proof fn lemma_list_reads_back(units: Seq<Seq<u8>>, length: int, index: int)
    requires
        0 <= index <= units.len(),
        length_prefixed(units.take(index)).len() <= length <= length_prefixed(units).len(),
        length <= usize::MAX,
        forall|i: int| 0 <= i < units.len() ==> (#[trigger] units[i]).len() <= u32::MAX,
    ensures
        ({
            let read = prefixed_units(
                length_prefixed(units).take(length),
                length_prefixed(units.take(index)).len() as int,
            );
            &&& length == length_prefixed(units).len() ==> read == Ok::<Seq<Seq<u8>>, DcErrorView>(
                units.skip(index),
            )
            &&& !between_units(units, length) ==> read is Err
        }),
    decreases units.len() - index,
{
    let whole = length_prefixed(units);
    let bytes = whole.take(length);
    let at = length_prefixed(units.take(index)).len() as int;
    assert(units.take(units.len() as int) =~= units);
    if index < units.len() {
        let end = at + 4 + units[index].len();
        assert(units[index].len() <= u32::MAX);
        lemma_list_unit(units, index);
        lemma_list_positions_grow(units, index, units.len() as int);
        if at < length {
            if at + 4 <= length {
                assert(bytes.subrange(at, at + 4) =~= whole.subrange(at, at + 4));
                if end <= length {
                    lemma_list_reads_back(units, length, index + 1);
                    assert(bytes.subrange(at + 4, end) =~= units[index]);
                    assert(seq![units[index]] + units.skip(index + 1) =~= units.skip(index));
                }
            }
        }
    } else {
        assert(units.skip(index) =~= Seq::empty());
    }
}

/// Without a start code a buffer is read as a list.
proof fn lemma_no_code_no_stream(bytes: Seq<u8>)
    requires
        forall|i: int| !short_code_at(bytes, i),
    ensures
        !is_stream(bytes),
{
    assert forall|i: int| 0 <= i < bytes.len() implies !short_code_at(bytes, i) && !long_code_at(
        bytes,
        i,
    ) by {
        assert(!short_code_at(bytes, i + 1));
    }
    lemma_pass_over(bytes, 0, bytes.len() as int);
    assert(start_codes(bytes, bytes.len() as int) =~= Seq::empty());
    if begins_stream(bytes) {
        let zeros = choose|zeros: int| #[trigger] opens_stream(bytes, zeros);
        assert(short_code_at(bytes, zeros - 2));
    }
}

/// Splitting a list in which each unit stands behind its length gives back the units. This holds
/// of every list that does not begin like a byte stream, where no unit is empty, whatever bytes
/// its lengths and units hold; and of every list in which no start code occurs.
pub proof fn law_split_reads_back_prefixed_list(units: Seq<Seq<u8>>)
    requires
        forall|i: int| 0 <= i < units.len() ==> (#[trigger] units[i]).len() <= u32::MAX,
        length_prefixed(units).len() <= usize::MAX,
        ({
            ||| !begins_stream(length_prefixed(units)) && forall|i: int|
                0 <= i < units.len() ==> (#[trigger] units[i]).len() > 0
            ||| forall|i: int| !short_code_at(length_prefixed(units), i)
        }),
    ensures
        nal_units(length_prefixed(units)) == Ok::<Seq<Seq<u8>>, DcErrorView>(units),
{
    let whole = length_prefixed(units);
    assert(units.take(0) =~= Seq::empty());
    lemma_list_reads_back(units, whole.len() as int, 0);
    assert(whole.take(whole.len() as int) =~= whole);
    assert(units.skip(0) =~= units);
    if forall|i: int| !short_code_at(whole, i) {
        lemma_no_code_no_stream(whole);
    } else {
        assert(whole_list(whole));
    }
}

/// Splitting a beginning of a list that is cut inside a unit or inside a length fails, where no
/// start code occurs in it, which would make it a byte stream.
pub proof fn law_cut_list_is_refused(units: Seq<Seq<u8>>, length: int)
    requires
        forall|i: int| 0 <= i < units.len() ==> (#[trigger] units[i]).len() <= u32::MAX,
        0 <= length <= length_prefixed(units).len(),
        length <= usize::MAX,
        !between_units(units, length),
        forall|i: int| !short_code_at(length_prefixed(units).take(length), i),
    ensures
        nal_units(length_prefixed(units).take(length)) is Err,
{
    assert(units.take(0) =~= Seq::empty());
    lemma_list_reads_back(units, length, 0);
    lemma_no_code_no_stream(length_prefixed(units).take(length));
}

/// The start codes stand in order, and every short start code from `at` on lies in one of them.
proof fn lemma_start_codes(bytes: Seq<u8>, at: int)
    requires
        0 <= at <= bytes.len(),
    ensures
        forall|k: int|
            0 <= k < start_codes(bytes, at).len() ==> at <= (#[trigger] start_codes(bytes, at)[k]).0
                < start_codes(bytes, at)[k].1 <= bytes.len(),
        forall|j: int, k: int|
            0 <= j < k < start_codes(bytes, at).len() ==> (#[trigger] start_codes(bytes, at)[j]).1
                <= (#[trigger] start_codes(bytes, at)[k]).0,
        forall|i: int|
            i >= at && #[trigger] short_code_at(bytes, i) ==> exists|k: int|
                0 <= k < start_codes(bytes, at).len() && (#[trigger] start_codes(bytes, at)[k]).0
                    <= i < start_codes(bytes, at)[k].1,
    decreases bytes.len() - at,
{
    let codes = start_codes(bytes, at);
    if at + 3 > bytes.len() {
        assert(codes =~= Seq::empty());
    } else if short_code_at(bytes, at) || long_code_at(bytes, at) {
        let end = if short_code_at(bytes, at) {
            at + 3
        } else {
            at + 4
        };
        lemma_start_codes(bytes, end);
        let rest = start_codes(bytes, end);
        assert(codes == seq![(at, end)] + rest);
        assert forall|k: int| 0 <= k < codes.len() implies at <= (#[trigger] codes[k]).0
            < codes[k].1 <= bytes.len() by {
            if k > 0 {
                assert(codes[k] == rest[k - 1]);
            }
        }
        assert forall|j: int, k: int| 0 <= j < k < codes.len() implies (#[trigger] codes[j]).1 <= (
        #[trigger] codes[k]).0 by {
            assert(codes[k] == rest[k - 1]);
            if j > 0 {
                assert(codes[j] == rest[j - 1]);
            }
        }
        assert forall|i: int| i >= at && #[trigger] short_code_at(bytes, i) implies exists|k: int|
            0 <= k < codes.len() && (#[trigger] codes[k]).0 <= i < codes[k].1 by {
            if i < end {
                assert(codes[0].0 <= i < codes[0].1);
            } else {
                let k = choose|k: int|
                    0 <= k < rest.len() && (#[trigger] rest[k]).0 <= i < rest[k].1;
                assert(codes[k + 1] == rest[k]);
            }
        }
    } else {
        lemma_start_codes(bytes, at + 1);
        assert(codes == start_codes(bytes, at + 1));
    }
}

proof fn lemma_units_behind_are_plain(bytes: Seq<u8>, count: nat)
    requires
        count <= start_codes(bytes, 0).len(),
    ensures
        forall|i: int|
            0 <= i < units_behind(bytes, start_codes(bytes, 0), count).len() ==> plain_unit(
                #[trigger] units_behind(bytes, start_codes(bytes, 0), count)[i],
            ),
    decreases count,
{
    let codes = start_codes(bytes, 0);
    if count > 0 {
        let index = count - 1;
        lemma_units_behind_are_plain(bytes, index as nat);
        lemma_start_codes(bytes, 0);
        let start = codes[index].1;
        let end = unit_end(bytes, codes, index);
        assert(end <= bytes.len()) by {
            if index + 1 < codes.len() {
                assert(codes[index + 1].0 < codes[index + 1].1);
            }
        }
        if start < end {
            let unit = bytes.subrange(start, end);
            assert forall|i: int| !short_code_at(unit, i) by {
                if short_code_at(unit, i) {
                    assert(short_code_at(bytes, start + i));
                    let k = choose|k: int|
                        0 <= k < codes.len() && (#[trigger] codes[k]).0 <= start + i < codes[k].1;
                    if k < index {
                        assert(codes[k].1 <= codes[index].0);
                    } else if k > index + 1 {
                        assert(codes[index + 1].1 <= codes[k].0);
                    }
                    assert(false);
                }
            }
            assert(plain_unit(unit));
        }
        let before = units_behind(bytes, codes, index as nat);
        let all = units_behind(bytes, codes, count);
        assert forall|i: int| 0 <= i < all.len() implies plain_unit(#[trigger] all[i]) by {
            if i < before.len() {
                assert(all[i] == before[i]);
            }
        }
    }
}

/// The units of a byte stream hold data and no start code; so framing them again and splitting
/// again changes nothing, unless the first unit has type zero and the new stream also makes a
/// list.
pub proof fn law_split_units_are_plain(bytes: Seq<u8>)
    requires
        is_stream(bytes),
    ensures
        nal_units(bytes) is Ok,
        forall|i: int|
            0 <= i < nal_units(bytes)->Ok_0.len() ==> plain_unit(#[trigger] nal_units(bytes)->Ok_0[i]),
        ({
            let units = nal_units(bytes)->Ok_0;
            units.len() > 0 && (unit_type(units[0]) != 0 || !whole_list(annex_b(units)))
                ==> nal_units(annex_b(units)) == nal_units(bytes)
        }),
{
    lemma_units_behind_are_plain(bytes, start_codes(bytes, 0).len());
    let units = nal_units(bytes)->Ok_0;
    if units.len() > 0 && (unit_type(units[0]) != 0 || !whole_list(annex_b(units))) {
        law_split_reads_back_annex_b(units);
    }
}

/// A byte stream is its units, each behind the bytes 0, 0, 0 and 1, and a list its units, each behind
/// the four bytes of its length.
pub proof fn law_streams_grow_unit_by_unit(units: Seq<Seq<u8>>, unit: Seq<u8>)
    ensures
        annex_b(Seq::empty()) == Seq::<u8>::empty(),
        annex_b(units.push(unit)) == annex_b(units) + seq![0u8, 0u8, 0u8, 1u8] + unit,
        length_prefixed(Seq::empty()) == Seq::<u8>::empty(),
        length_prefixed(units.push(unit)) == length_prefixed(units) + be_bytes(unit.len(), 4) + unit,
        start_code() == seq![0u8, 0u8, 0u8, 1u8],
        code_bytes(false) == seq![0u8, 0u8, 1u8],
        code_bytes(true) == seq![0u8, 0u8, 0u8, 1u8],
{
    assert(units.push(unit).drop_last() =~= units);
}

/// A picture is complete in itself exactly where one of its units has type five, which its lowest five
/// bits tell.
pub proof fn law_keyframes_hold_a_unit_of_type_five(units: Seq<Seq<u8>>)
    ensures
        holds_keyframe(units) <==> exists|i: int|
            0 <= i < units.len() && (#[trigger] units[i]).len() > 0 && units[i][0] as int % 32 == 5,
{
    if holds_keyframe(units) {
        let i = choose|i: int|
            0 <= i < units.len() && (#[trigger] units[i]).len() > 0 && unit_type(units[i])
                == IDR_SLICE;
        assert(units[i][0] as int % 32 == 5);
    }
    if exists|i: int|
        0 <= i < units.len() && (#[trigger] units[i]).len() > 0 && units[i][0] as int % 32 == 5 {
        let i = choose|i: int|
            0 <= i < units.len() && (#[trigger] units[i]).len() > 0 && units[i][0] as int % 32 == 5;
        assert(unit_type(units[i]) == IDR_SLICE);
    }
}

} // verus!
