//! Big-endian integers, length-prefixed fields and the byte reader of the wire format.
use crate::error::{DcError, DcErrorView};
use vstd::prelude::*;
use vstd::utf8::{decode_utf8, encode_utf8, valid_utf8};

verus! {

/// `256` to the power of `count`: the number of values that `count` bytes can hold.
pub open spec fn byte_range(count: nat) -> nat
    decreases count,
{
    if count == 0 {
        1
    } else {
        256 * byte_range((count - 1) as nat)
    }
}

/// The `width` low bytes of a number, most significant byte first.
pub open spec fn be_bytes(value: nat, width: nat) -> Seq<u8>
    decreases width,
{
    if width == 0 {
        Seq::empty()
    } else {
        be_bytes(value / 256, (width - 1) as nat).push((value % 256) as u8)
    }
}

/// The number that a sequence of bytes stands for, most significant byte first.
pub open spec fn be_value(bytes: Seq<u8>) -> nat
    decreases bytes.len(),
{
    if bytes.len() == 0 {
        0
    } else {
        be_value(bytes.drop_last()) * 256 + bytes.last() as nat
    }
}

/// The two's complement pattern of a signed 32-bit number, read as an unsigned number.
pub open spec fn unsigned_pattern(value: i32) -> nat {
    if value < 0 {
        (value + 0x1_0000_0000) as nat
    } else {
        value as nat
    }
}

/// The signed 32-bit number with the given two's complement pattern.
pub open spec fn signed_value(pattern: nat) -> i32 {
    if pattern < 0x8000_0000 {
        pattern as i32
    } else {
        (pattern - 0x1_0000_0000) as i32
    }
}

/// The length-prefixed form of a byte string.
pub open spec fn prefixed(bytes: Seq<u8>) -> Seq<u8> {
    be_bytes(bytes.len(), 4) + bytes
}

/// The length-prefixed UTF-8 form of a text.
pub open spec fn prefixed_text(text: Seq<char>) -> Seq<u8> {
    prefixed(encode_utf8(text))
}

/// The byte of a truth value.
pub open spec fn flag_byte(value: bool) -> u8 {
    if value {
        1
    } else {
        0
    }
}

pub proof fn lemma_byte_range()
    ensures
        byte_range(0) == 1,
        byte_range(1) == 0x100,
        byte_range(2) == 0x1_0000,
        byte_range(4) == 0x1_0000_0000,
        byte_range(8) == 0x1_0000_0000_0000_0000,
{
    reveal_with_fuel(byte_range, 9);
}

pub proof fn lemma_be_bytes_len(value: nat, width: nat)
    ensures
        be_bytes(value, width).len() == width,
    decreases width,
{
    if width > 0 {
        lemma_be_bytes_len(value / 256, (width - 1) as nat);
    }
}

/// A number that fits in `width` bytes is read back from its big-endian form.
pub proof fn law_be_bytes_read_back(value: nat, width: nat)
    requires
        value < byte_range(width),
    ensures
        be_bytes(value, width).len() == width,
        be_value(be_bytes(value, width)) == value,
    decreases width,
{
    lemma_be_bytes_len(value, width);
    if width > 0 {
        law_be_bytes_read_back(value / 256, (width - 1) as nat);
        assert(be_bytes(value, width).drop_last() =~= be_bytes(value / 256, (width - 1) as nat));
    }
}

pub proof fn lemma_be_value_bound(bytes: Seq<u8>)
    ensures
        be_value(bytes) < byte_range(bytes.len()),
    decreases bytes.len(),
{
    if bytes.len() > 0 {
        lemma_be_value_bound(bytes.drop_last());
    }
}

/// Every byte string is the big-endian form of the number it stands for.
pub proof fn law_be_value_written_back(bytes: Seq<u8>)
    ensures
        be_bytes(be_value(bytes), bytes.len()) == bytes,
    decreases bytes.len(),
{
    if bytes.len() > 0 {
        law_be_value_written_back(bytes.drop_last());
        assert(be_value(bytes) / 256 == be_value(bytes.drop_last()));
        assert(be_value(bytes) % 256 == bytes.last() as nat);
        assert(bytes.drop_last().push(bytes.last()) =~= bytes);
    }
}

pub proof fn lemma_signed_pattern(value: i32)
    ensures
        unsigned_pattern(value) < 0x1_0000_0000,
        signed_value(unsigned_pattern(value)) == value,
{
}

/// Appends the `width` low bytes of a number, most significant byte first.
pub(crate) fn put_uint(out: &mut Vec<u8>, value: u64, width: usize)
    ensures
        final(out)@ == old(out)@ + be_bytes(value as nat, width as nat),
    decreases width,
{
    if width > 0 {
        put_uint(out, value / 256, width - 1);
        out.push((value % 256) as u8);
        assert(out@ =~= old(out)@ + be_bytes(value as nat, width as nat));
    } else {
        assert(out@ =~= old(out)@ + be_bytes(value as nat, width as nat));
    }
}

pub(crate) fn put_u16(out: &mut Vec<u8>, value: u16)
    ensures
        final(out)@ == old(out)@ + be_bytes(value as nat, 2),
{
    put_uint(out, value as u64, 2);
}

pub(crate) fn put_u32(out: &mut Vec<u8>, value: u32)
    ensures
        final(out)@ == old(out)@ + be_bytes(value as nat, 4),
{
    put_uint(out, value as u64, 4);
}

pub(crate) fn put_u64(out: &mut Vec<u8>, value: u64)
    ensures
        final(out)@ == old(out)@ + be_bytes(value as nat, 8),
{
    put_uint(out, value, 8);
}

pub(crate) fn put_i32(out: &mut Vec<u8>, value: i32)
    ensures
        final(out)@ == old(out)@ + be_bytes(unsigned_pattern(value), 4),
{
    let wide: i64 = value as i64;
    let pattern: u64 = if wide < 0 {
        (wide + 0x1_0000_0000) as u64
    } else {
        wide as u64
    };
    put_uint(out, pattern, 4);
}

pub(crate) fn put_slice(out: &mut Vec<u8>, value: &[u8])
    ensures
        final(out)@ == old(out)@ + value@,
{
    out.extend_from_slice(value);
    assert(out@ =~= old(out)@ + value@);
}

pub(crate) fn put_flag(out: &mut Vec<u8>, value: bool)
    ensures
        final(out)@ == old(out)@.push(flag_byte(value)),
{
    if value {
        out.push(1);
    } else {
        out.push(0);
    }
}

/// Appends a byte string behind its length; a length above the 32-bit range is refused.
pub(crate) fn put_bytes(out: &mut Vec<u8>, value: &[u8]) -> (result: Result<(), DcError>)
    ensures
        match result {
            Ok(_) => value@.len() <= u32::MAX && final(out)@ == old(out)@ + prefixed(value@),
            Err(e) => value@.len() > u32::MAX && e@ == DcErrorView::InvalidInput(
                "payload is too large"@,
            ),
        },
{
    if value.len() as u64 > 0xffff_ffffu64 {
        return Err(DcError::invalid_input("payload is too large"));
    }
    put_u32(out, value.len() as u32);
    put_slice(out, value);
    assert(out@ =~= old(out)@ + prefixed(value@));
    Ok(())
}

/// Appends the UTF-8 form of a text behind its length.
pub(crate) fn put_string(out: &mut Vec<u8>, value: &str) -> (result: Result<(), DcError>)
    ensures
        match result {
            Ok(_) => encode_utf8(value@).len() <= u32::MAX && final(out)@ == old(out)@
                + prefixed_text(value@),
            Err(e) => encode_utf8(value@).len() > u32::MAX && e@ == DcErrorView::InvalidInput(
                "payload is too large"@,
            ),
        },
{
    put_bytes(out, value.as_bytes())
}

/// The number that at most eight bytes stand for, most significant byte first.
pub(crate) fn be_uint(bytes: &[u8]) -> (value: u64)
    requires
        bytes@.len() <= 8,
    ensures
        value == be_value(bytes@),
{
    let mut value: u64 = 0;
    let mut index: usize = 0;
    while index < bytes.len()
        invariant
            index <= bytes@.len() <= 8,
            value == be_value(bytes@.take(index as int)),
        decreases bytes@.len() - index,
    {
        proof {
            lemma_be_value_bound(bytes@.take(index as int));
            assert(byte_range(index as nat) <= 0x100_0000_0000_0000) by {
                reveal_with_fuel(byte_range, 9);
            }
            assert(bytes@.take(index as int + 1).drop_last() =~= bytes@.take(index as int));
        }
        value = value * 256 + bytes[index] as u64;
        index = index + 1;
    }
    assert(bytes@.take(index as int) =~= bytes@);
    value
}

/// Calls `String::from_utf8` of the standard library. The contract claims that exactly the valid
/// UTF-8 byte strings are accepted, and that the text is what they decode to.
#[verifier::external_body]
pub(crate) fn text_from_utf8(bytes: Vec<u8>) -> (result: Option<String>)
    ensures
        match result {
            Some(text) => valid_utf8(bytes@) && text@ == decode_utf8(bytes@),
            None => !valid_utf8(bytes@),
        },
{
    String::from_utf8(bytes).ok()
}

/// How far a message has been read, or the first failure. Reads after a failure change nothing,
/// so a chain of reads ends in the failure of the first one that could not be made.
pub struct ReadState {
    pub at: nat,
    pub failure: Option<DcErrorView>,
}

/// The state at a position that was reached without a failure.
pub open spec fn reading_at(at: nat) -> ReadState {
    ReadState { at, failure: None }
}

/// The state after a failure.
pub open spec fn failed(state: ReadState, error: DcErrorView) -> ReadState {
    ReadState { at: state.at, failure: Some(error) }
}

/// The state after the next `count` bytes of a message were taken.
pub open spec fn taken(input: Seq<u8>, state: ReadState, count: nat) -> ReadState {
    if state.failure is Some {
        state
    } else if state.at + count > usize::MAX {
        failed(state, DcErrorView::Codec("message offset overflow"@))
    } else if state.at + count > input.len() {
        failed(state, DcErrorView::Codec("truncated protocol message"@))
    } else {
        reading_at(state.at + count)
    }
}

/// The next `count` bytes.
pub open spec fn read_raw(input: Seq<u8>, state: ReadState, count: nat) -> (Seq<u8>, ReadState) {
    (input.subrange(state.at as int, (state.at + count) as int), taken(input, state, count))
}

/// The next `width` bytes as an unsigned big-endian number.
pub open spec fn read_uint(input: Seq<u8>, state: ReadState, width: nat) -> (nat, ReadState) {
    let (bytes, after) = read_raw(input, state, width);
    (be_value(bytes), after)
}

/// The next four bytes as a signed big-endian number.
pub open spec fn read_int(input: Seq<u8>, state: ReadState) -> (i32, ReadState) {
    let (pattern, after) = read_uint(input, state, 4);
    (signed_value(pattern), after)
}

/// The next byte as a truth value: anything but zero is true.
pub open spec fn read_flag(input: Seq<u8>, state: ReadState) -> (bool, ReadState) {
    let (value, after) = read_uint(input, state, 1);
    (value != 0, after)
}

/// The next length-prefixed byte string.
pub open spec fn read_bytes(input: Seq<u8>, state: ReadState) -> (Seq<u8>, ReadState) {
    let (count, body) = read_uint(input, state, 4);
    read_raw(input, body, count)
}

/// The next length-prefixed UTF-8 text.
pub open spec fn read_text(input: Seq<u8>, state: ReadState) -> (Seq<char>, ReadState) {
    let (bytes, after) = read_bytes(input, state);
    if after.failure is None && !valid_utf8(bytes) {
        (decode_utf8(bytes), failed(after, DcErrorView::Codec("invalid UTF-8 string"@)))
    } else {
        (decode_utf8(bytes), after)
    }
}

/// Reads the fields of a message one after the other.
pub struct Reader<'a> {
    pub input: &'a [u8],
    pub offset: usize,
}

impl<'a> Reader<'a> {
    pub open spec fn wf(self) -> bool {
        self.offset <= self.input@.len()
    }

    pub open spec fn state(self) -> ReadState {
        reading_at(self.offset as nat)
    }

    /// The outcome of one read: the value and the new position, or the first failure.
    pub open spec fn outcome<T>(
        before: Reader<'a>,
        after: Reader<'a>,
        result: Result<T, DcError>,
        state: ReadState,
    ) -> bool {
        &&& after.input == before.input
        &&& match result {
            Ok(_) => after.wf() && after.state() == state,
            Err(e) => state.failure == Some(e@),
        }
    }

    pub(crate) fn new(input: &'a [u8], offset: usize) -> (reader: Reader<'a>)
        requires
            offset <= input@.len(),
        ensures
            reader.wf(),
            reader.input == input,
            reader.offset == offset,
    {
        Reader { input, offset }
    }

    pub(crate) fn take(&mut self, count: usize) -> (result: Result<&'a [u8], DcError>)
        requires
            old(self).wf(),
        ensures
            Reader::outcome(
                *old(self),
                *final(self),
                result,
                taken(old(self).input@, old(self).state(), count as nat),
            ),
            result matches Ok(bytes) ==> bytes@ == read_raw(
                old(self).input@,
                old(self).state(),
                count as nat,
            ).0,
    {
        let end: usize = match self.offset.checked_add(count) {
            Some(end) => end,
            None => { return Err(DcError::codec("message offset overflow")); },
        };
        if end > self.input.len() {
            return Err(DcError::codec("truncated protocol message"));
        }
        let input = self.input;
        let value = vstd::slice::slice_subrange(input, self.offset, end);
        self.offset = end;
        Ok(value)
    }

    pub(crate) fn uint(&mut self, width: usize) -> (result: Result<u64, DcError>)
        requires
            old(self).wf(),
            width <= 8,
        ensures
            Reader::outcome(
                *old(self),
                *final(self),
                result,
                read_uint(old(self).input@, old(self).state(), width as nat).1,
            ),
            result matches Ok(value) ==> value == read_uint(
                old(self).input@,
                old(self).state(),
                width as nat,
            ).0 && value < byte_range(width as nat),
    {
        let bytes = self.take(width)?;
        proof {
            lemma_be_value_bound(bytes@);
        }
        Ok(be_uint(bytes))
    }

    pub(crate) fn u8(&mut self) -> (result: Result<u8, DcError>)
        requires
            old(self).wf(),
        ensures
            Reader::outcome(
                *old(self),
                *final(self),
                result,
                read_uint(old(self).input@, old(self).state(), 1).1,
            ),
            result matches Ok(value) ==> value == read_uint(
                old(self).input@,
                old(self).state(),
                1,
            ).0,
    {
        let value: u64 = self.uint(1)?;
        proof {
            lemma_byte_range();
        }
        Ok(value as u8)
    }

    pub(crate) fn u16(&mut self) -> (result: Result<u16, DcError>)
        requires
            old(self).wf(),
        ensures
            Reader::outcome(
                *old(self),
                *final(self),
                result,
                read_uint(old(self).input@, old(self).state(), 2).1,
            ),
            result matches Ok(value) ==> value == read_uint(
                old(self).input@,
                old(self).state(),
                2,
            ).0,
    {
        let value: u64 = self.uint(2)?;
        proof {
            lemma_byte_range();
        }
        Ok(value as u16)
    }

    pub(crate) fn u32(&mut self) -> (result: Result<u32, DcError>)
        requires
            old(self).wf(),
        ensures
            Reader::outcome(
                *old(self),
                *final(self),
                result,
                read_uint(old(self).input@, old(self).state(), 4).1,
            ),
            result matches Ok(value) ==> value == read_uint(
                old(self).input@,
                old(self).state(),
                4,
            ).0,
    {
        let value: u64 = self.uint(4)?;
        proof {
            lemma_byte_range();
        }
        Ok(value as u32)
    }

    pub(crate) fn u64(&mut self) -> (result: Result<u64, DcError>)
        requires
            old(self).wf(),
        ensures
            Reader::outcome(
                *old(self),
                *final(self),
                result,
                read_uint(old(self).input@, old(self).state(), 8).1,
            ),
            result matches Ok(value) ==> value == read_uint(
                old(self).input@,
                old(self).state(),
                8,
            ).0,
    {
        self.uint(8)
    }

    pub(crate) fn i32(&mut self) -> (result: Result<i32, DcError>)
        requires
            old(self).wf(),
        ensures
            Reader::outcome(
                *old(self),
                *final(self),
                result,
                read_int(old(self).input@, old(self).state()).1,
            ),
            result matches Ok(value) ==> value == read_int(
                old(self).input@,
                old(self).state(),
            ).0,
    {
        let pattern: u64 = self.uint(4)?;
        proof {
            lemma_byte_range();
        }
        if pattern < 0x8000_0000 {
            Ok(pattern as i32)
        } else {
            let wide: i64 = pattern as i64;
            Ok((wide - 0x1_0000_0000) as i32)
        }
    }

    pub(crate) fn flag(&mut self) -> (result: Result<bool, DcError>)
        requires
            old(self).wf(),
        ensures
            Reader::outcome(
                *old(self),
                *final(self),
                result,
                read_flag(old(self).input@, old(self).state()).1,
            ),
            result matches Ok(value) ==> value == read_flag(
                old(self).input@,
                old(self).state(),
            ).0,
    {
        let value: u8 = self.u8()?;
        Ok(value != 0)
    }

    pub(crate) fn array_32(&mut self) -> (result: Result<[u8; 32], DcError>)
        requires
            old(self).wf(),
        ensures
            Reader::outcome(
                *old(self),
                *final(self),
                result,
                read_raw(old(self).input@, old(self).state(), 32).1,
            ),
            result matches Ok(value) ==> value@ == read_raw(
                old(self).input@,
                old(self).state(),
                32,
            ).0,
    {
        let bytes = self.take(32)?;
        Ok(array_32(bytes))
    }

    pub(crate) fn array_16(&mut self) -> (result: Result<[u8; 16], DcError>)
        requires
            old(self).wf(),
        ensures
            Reader::outcome(
                *old(self),
                *final(self),
                result,
                read_raw(old(self).input@, old(self).state(), 16).1,
            ),
            result matches Ok(value) ==> value@ == read_raw(
                old(self).input@,
                old(self).state(),
                16,
            ).0,
    {
        let bytes = self.take(16)?;
        Ok(array_16(bytes))
    }

    pub(crate) fn bytes(&mut self) -> (result: Result<Vec<u8>, DcError>)
        requires
            old(self).wf(),
        ensures
            Reader::outcome(
                *old(self),
                *final(self),
                result,
                read_bytes(old(self).input@, old(self).state()).1,
            ),
            result matches Ok(value) ==> value@ == read_bytes(
                old(self).input@,
                old(self).state(),
            ).0,
    {
        let count: u32 = self.u32()?;
        let bytes = self.take(count as usize)?;
        Ok(vstd::slice::slice_to_vec(bytes))
    }

    pub(crate) fn string(&mut self) -> (result: Result<String, DcError>)
        requires
            old(self).wf(),
        ensures
            Reader::outcome(
                *old(self),
                *final(self),
                result,
                read_text(old(self).input@, old(self).state()).1,
            ),
            result matches Ok(value) ==> value@ == read_text(
                old(self).input@,
                old(self).state(),
            ).0,
    {
        let bytes = self.bytes()?;
        match text_from_utf8(bytes) {
            Some(text) => Ok(text),
            None => Err(DcError::codec("invalid UTF-8 string")),
        }
    }
}

/// The 32 bytes of a slice as an array.
pub(crate) fn array_32(bytes: &[u8]) -> (array: [u8; 32])
    requires
        bytes@.len() == 32,
    ensures
        array@ == bytes@,
{
    let mut array: [u8; 32] = [0u8; 32];
    let mut index: usize = 0;
    while index < 32
        invariant
            index <= 32,
            bytes@.len() == 32,
            forall|i: int| 0 <= i < index ==> array@[i] == bytes@[i],
        decreases 32 - index,
    {
        array[index] = bytes[index];
        index = index + 1;
    }
    assert(array@ =~= bytes@);
    array
}

/// The 16 bytes of a slice as an array.
pub(crate) fn array_16(bytes: &[u8]) -> (array: [u8; 16])
    requires
        bytes@.len() == 16,
    ensures
        array@ == bytes@,
{
    let mut array: [u8; 16] = [0u8; 16];
    let mut index: usize = 0;
    while index < 16
        invariant
            index <= 16,
            bytes@.len() == 16,
            forall|i: int| 0 <= i < index ==> array@[i] == bytes@[i],
        decreases 16 - index,
    {
        array[index] = bytes[index];
        index = index + 1;
    }
    assert(array@ =~= bytes@);
    array
}

} // verus!
