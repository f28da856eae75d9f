//! Length-delimited message frames on a reliable stream.
use crate::bytes::{be_bytes, be_uint, be_value, lemma_be_bytes_len, lemma_byte_range, law_be_bytes_read_back, put_slice, put_u32};
use crate::error::{DcError, DcErrorView};
use crate::protocol::format::{encode_failure, message_bytes, parse_message};
use crate::protocol::laws::law_decode_reads_back_encode;
use crate::protocol::types::MessageView;
use crate::protocol::wire_laws::{lemma_field, lemma_number, number_at, stand_at};
use crate::protocol::{WireMessage, MAX_MESSAGE_SIZE};
use vstd::prelude::*;

verus! {

/// A message behind its length.
pub open spec fn frame_bytes(message: MessageView) -> Seq<u8> {
    be_bytes(message_bytes(message).len(), 4) + message_bytes(message)
}

/// The number of bytes that follow a length prefix, or why there are none.
pub open spec fn announced_length(prefix: Seq<u8>) -> Result<nat, DcErrorView> {
    if be_value(prefix) == 0 || be_value(prefix) > MAX_MESSAGE_SIZE {
        Err(DcErrorView::Codec("invalid QUIC message length"@))
    } else {
        Ok(be_value(prefix))
    }
}

/// The bytes that carry a message on a stream: its length in four bytes, then the message.
pub fn frame_message(message: &WireMessage) -> (result: Result<Vec<u8>, DcError>)
    ensures
        match result {
            Ok(bytes) => encode_failure(message@) is None && bytes@ == frame_bytes(message@),
            Err(error) => encode_failure(message@) == Some(error@),
        },
{
    let encoded = message.encode()?;
    let mut frame: Vec<u8> = Vec::new();
    put_u32(&mut frame, encoded.len() as u32);
    put_slice(&mut frame, encoded.as_slice());
    assert(frame@ =~= frame_bytes(message@));
    Ok(frame)
}

/// The number of bytes that follow a length prefix.
pub fn frame_length(prefix: &[u8; 4]) -> (result: Result<usize, DcError>)
    ensures
        match result {
            Ok(length) => announced_length(prefix@) == Ok::<nat, DcErrorView>(length as nat),
            Err(error) => announced_length(prefix@) == Err::<nat, DcErrorView>(error@),
        },
{
    let length: u64 = be_uint(prefix.as_slice());
    if length == 0 || length > MAX_MESSAGE_SIZE as u64 {
        return Err(DcError::codec("invalid QUIC message length"));
    }
    Ok(length as usize)
}

/// The message of a frame whose length prefix was accepted.
pub fn unframe_message(payload: &[u8]) -> (result: Result<WireMessage, DcError>)
    ensures
        match result {
            Ok(message) => parse_message(payload@) == Ok::<MessageView, DcErrorView>(message@),
            Err(error) => parse_message(payload@) == Err::<MessageView, DcErrorView>(error@),
        },
{
    WireMessage::decode(payload)
}

/// A message that was framed comes back: its length is accepted, exactly that many bytes
/// follow, and they decode to the message.
pub proof fn law_frame_reads_back(message: WireMessage)
    requires
        encode_failure(message@) is None,
    ensures
        announced_length(frame_bytes(message@).take(4)) == Ok::<nat, DcErrorView>(
            (frame_bytes(message@).len() - 4) as nat,
        ),
        parse_message(frame_bytes(message@).skip(4)) == Ok::<MessageView, DcErrorView>(message@),
{
    let length = message_bytes(message@).len();
    lemma_byte_range();
    lemma_be_bytes_len(length, 4);
    law_be_bytes_read_back(length, 4);
    assert(frame_bytes(message@).take(4) =~= be_bytes(length, 4));
    assert(frame_bytes(message@).skip(4) =~= message_bytes(message@));
    law_decode_reads_back_encode(message);
}

/// A frame is the message behind the four bytes of its length.
pub proof fn law_frame_layout(message: MessageView)
    requires
        encode_failure(message) is None,
    ensures
        frame_bytes(message).len() == 4 + message_bytes(message).len(),
        number_at(frame_bytes(message), 0, 4) == message_bytes(message).len(),
        stand_at(frame_bytes(message), 4, message_bytes(message)),
{
    lemma_be_bytes_len(message_bytes(message).len(), 4);
    lemma_byte_range();
    let bytes = frame_bytes(message);
    assert(bytes.subrange(0, 4) =~= be_bytes(message_bytes(message).len(), 4));
    lemma_field(bytes, 0, message_bytes(message).len(), 4);
}

/// A length is taken exactly where it is not zero and not above sixteen mebibytes.
pub proof fn law_lengths_are_bounded(prefix: Seq<u8>)
    requires
        prefix.len() == 4,
    ensures
        announced_length(prefix) is Ok <==> 1 <= number_at(prefix, 0, 4) <= 16_777_216,
        announced_length(prefix) is Ok ==> announced_length(prefix)->Ok_0 == number_at(
            prefix,
            0,
            4,
        ),
{
    lemma_number(prefix, 0, 4);
    assert(prefix.subrange(0, 4) =~= prefix);
}

} // verus!
