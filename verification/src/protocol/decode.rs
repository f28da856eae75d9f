//! Reading messages.
use crate::bytes::{ReadState, Reader};
use crate::error::{DcError, DcErrorView};
use crate::protocol::format::{
    parse_message, read_authenticate, read_authenticated, read_body, read_capabilities,
    read_challenge, read_cursor, read_desktop_update, read_event, read_file_ack, read_file_chunk,
    read_file_offer, read_hello, read_key, read_pointer, read_rate_hint, read_rect, read_rects,
    read_rejected, read_shape, read_video, read_wheel,
};
use crate::protocol::keys::KeyboardKey;
use crate::protocol::types::{
    Capabilities, CursorShape, DesktopRect, Hello, InputEvent, MessageView, ProtocolVersion,
    WireMessage, MAX_DESKTOP_REGIONS, MAX_MESSAGE_SIZE,
};
use crate::text::with_number;
use vstd::prelude::*;

verus! {

/// The outcome of reading one message body.
spec fn message_read(
    before: Reader,
    after: Reader,
    result: Result<WireMessage, DcError>,
    expected: (MessageView, ReadState),
) -> bool {
    &&& Reader::outcome(before, after, result, expected.1)
    &&& result matches Ok(message) ==> message@ == expected.0
}

/// The outcome of reading one input event.
spec fn event_read(
    before: Reader,
    after: Reader,
    result: Result<InputEvent, DcError>,
    expected: (InputEvent, ReadState),
) -> bool {
    &&& Reader::outcome(before, after, result, expected.1)
    &&& result matches Ok(event) ==> event == expected.0
}

fn capabilities(reader: &mut Reader) -> (result: Result<Capabilities, DcError>)
    requires
        old(reader).wf(),
    ensures
        Reader::outcome(
            *old(reader),
            *final(reader),
            result,
            read_capabilities(old(reader).input@, old(reader).state()).1,
        ),
        result matches Ok(value) ==> value == read_capabilities(
            old(reader).input@,
            old(reader).state(),
        ).0,
{
    let flags: u16 = reader.u16()?;
    Ok(
        Capabilities {
            desktop: flags % 2 == 1,
            control_input: flags / 64 % 2 == 1,
            terminal: flags / 2 % 2 == 1,
            command_execution: flags / 4 % 2 == 1,
            file_transfer: flags / 8 % 2 == 1,
            clipboard: flags / 16 % 2 == 1,
            ssh_compatibility: flags / 32 % 2 == 1,
            hybrid_video: flags / 128 % 2 == 1,
            desktop_optimizations: flags / 256 % 2 == 1,
            h264_nal_datagrams: flags / 512 % 2 == 1,
        },
    )
}

fn hello(reader: &mut Reader) -> (result: Result<WireMessage, DcError>)
    requires
        old(reader).wf(),
    ensures
        message_read(
            *old(reader),
            *final(reader),
            result,
            read_hello(old(reader).input@, old(reader).state()),
        ),
{
    let major: u16 = reader.u16()?;
    let minor: u16 = reader.u16()?;
    let capabilities = capabilities(reader)?;
    Ok(
        WireMessage::Hello(
            Hello { protocol_version: ProtocolVersion { major, minor }, capabilities },
        ),
    )
}

fn challenge(reader: &mut Reader) -> (result: Result<WireMessage, DcError>)
    requires
        old(reader).wf(),
    ensures
        message_read(
            *old(reader),
            *final(reader),
            result,
            read_challenge(old(reader).input@, old(reader).state()),
        ),
{
    let nonce = reader.array_32()?;
    let salt = reader.string()?;
    Ok(WireMessage::Challenge { nonce, salt })
}

fn authenticate(reader: &mut Reader) -> (result: Result<WireMessage, DcError>)
    requires
        old(reader).wf(),
    ensures
        message_read(
            *old(reader),
            *final(reader),
            result,
            read_authenticate(old(reader).input@, old(reader).state()),
        ),
{
    let proof_bytes = reader.array_32()?;
    Ok(WireMessage::Authenticate { proof: proof_bytes })
}

fn authenticated(reader: &mut Reader) -> (result: Result<WireMessage, DcError>)
    requires
        old(reader).wf(),
    ensures
        message_read(
            *old(reader),
            *final(reader),
            result,
            read_authenticated(old(reader).input@, old(reader).state()),
        ),
{
    let permissions = capabilities(reader)?;
    Ok(WireMessage::Authenticated { permissions })
}

fn rejected(reader: &mut Reader) -> (result: Result<WireMessage, DcError>)
    requires
        old(reader).wf(),
    ensures
        message_read(
            *old(reader),
            *final(reader),
            result,
            read_rejected(old(reader).input@, old(reader).state()),
        ),
{
    let reason = reader.string()?;
    Ok(WireMessage::Rejected { reason })
}

fn video(reader: &mut Reader) -> (result: Result<WireMessage, DcError>)
    requires
        old(reader).wf(),
    ensures
        message_read(
            *old(reader),
            *final(reader),
            result,
            read_video(old(reader).input@, old(reader).state()),
        ),
{
    let codec: u8 = reader.u8()?;
    let sequence: u64 = reader.u64()?;
    let timestamp_millis: u64 = reader.u64()?;
    let keyframe = reader.flag()?;
    let width: u32 = reader.u32()?;
    let height: u32 = reader.u32()?;
    let pixel_format: u8 = reader.u8()?;
    let stride: u32 = reader.u32()?;
    let data = reader.bytes()?;
    Ok(
        WireMessage::Video {
            codec,
            sequence,
            timestamp_millis,
            keyframe,
            width,
            height,
            pixel_format,
            stride,
            data,
        },
    )
}

fn pointer(reader: &mut Reader) -> (result: Result<InputEvent, DcError>)
    requires
        old(reader).wf(),
    ensures
        event_read(
            *old(reader),
            *final(reader),
            result,
            read_pointer(old(reader).input@, old(reader).state()),
        ),
{
    let x: i32 = reader.i32()?;
    let y: i32 = reader.i32()?;
    let buttons: u8 = reader.u8()?;
    Ok(InputEvent::Pointer { x, y, buttons })
}

fn key(reader: &mut Reader) -> (result: Result<InputEvent, DcError>)
    requires
        old(reader).wf(),
    ensures
        event_read(
            *old(reader),
            *final(reader),
            result,
            read_key(old(reader).input@, old(reader).state()),
        ),
{
    let code: u16 = reader.u16()?;
    let key = KeyboardKey::from_wire(code)?;
    let pressed = reader.flag()?;
    Ok(InputEvent::Key { key, pressed })
}

fn wheel(reader: &mut Reader) -> (result: Result<InputEvent, DcError>)
    requires
        old(reader).wf(),
    ensures
        event_read(
            *old(reader),
            *final(reader),
            result,
            read_wheel(old(reader).input@, old(reader).state()),
        ),
{
    let delta_x: i32 = reader.i32()?;
    let delta_y: i32 = reader.i32()?;
    Ok(InputEvent::Wheel { delta_x, delta_y })
}

fn event(reader: &mut Reader) -> (result: Result<InputEvent, DcError>)
    requires
        old(reader).wf(),
    ensures
        event_read(
            *old(reader),
            *final(reader),
            result,
            read_event(old(reader).input@, old(reader).state()),
        ),
{
    let kind: u8 = reader.u8()?;
    if kind == 1 {
        pointer(reader)
    } else if kind == 2 {
        key(reader)
    } else if kind == 3 {
        wheel(reader)
    } else {
        Err(DcError::codec("unknown input event"))
    }
}

fn rate_hint(reader: &mut Reader) -> (result: Result<WireMessage, DcError>)
    requires
        old(reader).wf(),
    ensures
        message_read(
            *old(reader),
            *final(reader),
            result,
            read_rate_hint(old(reader).input@, old(reader).state()),
        ),
{
    let bitrate: u32 = reader.u32()?;
    let frames_per_second: u16 = reader.u16()?;
    Ok(WireMessage::RateHint { bitrate, frames_per_second })
}

fn rect(reader: &mut Reader) -> (result: Result<DesktopRect, DcError>)
    requires
        old(reader).wf(),
    ensures
        Reader::outcome(
            *old(reader),
            *final(reader),
            result,
            read_rect(old(reader).input@, old(reader).state()).1,
        ),
        result matches Ok(value) ==> value == read_rect(
            old(reader).input@,
            old(reader).state(),
        ).0,
{
    let x: u32 = reader.u32()?;
    let y: u32 = reader.u32()?;
    let width: u32 = reader.u32()?;
    let height: u32 = reader.u32()?;
    Ok(DesktopRect { x, y, width, height })
}

/// A failed read stays failed over any number of further rectangles.
proof fn lemma_rects_after_failure(input: Seq<u8>, state: ReadState, count: nat)
    requires
        state.failure is Some,
    ensures
        read_rects(input, state, count).1 == state,
    decreases count,
{
    if count > 0 {
        lemma_rects_after_failure(input, state, (count - 1) as nat);
    }
}

/// A failure among the first rectangles is the failure of the whole list.
proof fn lemma_rects_failure(input: Seq<u8>, state: ReadState, few: nat, count: nat)
    requires
        few <= count,
        read_rects(input, state, few).1.failure is Some,
    ensures
        read_rects(input, state, count).1.failure == read_rects(input, state, few).1.failure,
    decreases count,
{
    if few < count {
        lemma_rects_failure(input, state, few, (count - 1) as nat);
    }
}

fn rects(reader: &mut Reader, count: usize) -> (result: Result<Vec<DesktopRect>, DcError>)
    requires
        old(reader).wf(),
    ensures
        Reader::outcome(
            *old(reader),
            *final(reader),
            result,
            read_rects(old(reader).input@, old(reader).state(), count as nat).1,
        ),
        result matches Ok(value) ==> value@ == read_rects(
            old(reader).input@,
            old(reader).state(),
            count as nat,
        ).0,
{
    let mut regions: Vec<DesktopRect> = Vec::with_capacity(count);
    let mut index: usize = 0;
    while index < count
        invariant
            index <= count,
            reader.wf(),
            reader.input == old(reader).input,
            reader.state() == read_rects(
                old(reader).input@,
                old(reader).state(),
                index as nat,
            ).1,
            regions@ == read_rects(old(reader).input@, old(reader).state(), index as nat).0,
        decreases count - index,
    {
        let ghost input = old(reader).input@;
        let ghost start = old(reader).state();
        match rect(reader) {
            Ok(value) => {
                regions.push(value);
            },
            Err(e) => {
                proof {
                    lemma_rects_failure(input, start, (index + 1) as nat, count as nat);
                }
                return Err(e);
            },
        }
        index = index + 1;
    }
    Ok(regions)
}

fn desktop_update(reader: &mut Reader) -> (result: Result<WireMessage, DcError>)
    requires
        old(reader).wf(),
    ensures
        message_read(
            *old(reader),
            *final(reader),
            result,
            read_desktop_update(old(reader).input@, old(reader).state()),
        ),
{
    proof {
        let input = reader.input@;
        assert forall|state: ReadState, count: nat| state.failure is Some implies (
        #[trigger] read_rects(input, state, count)).1 == state by {
            lemma_rects_after_failure(input, state, count);
        }
    }
    let sequence: u64 = reader.u64()?;
    let timestamp_millis: u64 = reader.u64()?;
    let desktop_width: u32 = reader.u32()?;
    let desktop_height: u32 = reader.u32()?;
    let encoding: u8 = reader.u8()?;
    let region_count: u16 = reader.u16()?;
    let count: usize = region_count as usize;
    if count == 0 || count > MAX_DESKTOP_REGIONS {
        return Err(DcError::codec("desktop update has an invalid region count"));
    }
    let regions = rects(reader, count)?;
    let data = reader.bytes()?;
    Ok(
        WireMessage::DesktopUpdate {
            sequence,
            timestamp_millis,
            desktop_width,
            desktop_height,
            encoding,
            regions,
            data,
        },
    )
}

fn shape(reader: &mut Reader) -> (result: Result<CursorShape, DcError>)
    requires
        old(reader).wf(),
    ensures
        Reader::outcome(
            *old(reader),
            *final(reader),
            result,
            read_shape(old(reader).input@, old(reader).state()).1,
        ),
        result matches Ok(value) ==> value@ == read_shape(
            old(reader).input@,
            old(reader).state(),
        ).0,
{
    let kind: u8 = reader.u8()?;
    let width: u32 = reader.u32()?;
    let height: u32 = reader.u32()?;
    let hotspot_x: u32 = reader.u32()?;
    let hotspot_y: u32 = reader.u32()?;
    let pitch: u32 = reader.u32()?;
    let data = reader.bytes()?;
    Ok(CursorShape { kind, width, height, hotspot_x, hotspot_y, pitch, data })
}

fn cursor(reader: &mut Reader) -> (result: Result<WireMessage, DcError>)
    requires
        old(reader).wf(),
    ensures
        message_read(
            *old(reader),
            *final(reader),
            result,
            read_cursor(old(reader).input@, old(reader).state()),
        ),
{
    let sequence: u64 = reader.u64()?;
    let visible = reader.flag()?;
    let x: i32 = reader.i32()?;
    let y: i32 = reader.i32()?;
    let has_shape = reader.flag()?;
    let shape = if has_shape {
        Some(shape(reader)?)
    } else {
        None
    };
    Ok(WireMessage::Cursor { sequence, visible, x, y, shape })
}

fn file_offer(reader: &mut Reader) -> (result: Result<WireMessage, DcError>)
    requires
        old(reader).wf(),
    ensures
        message_read(
            *old(reader),
            *final(reader),
            result,
            read_file_offer(old(reader).input@, old(reader).state()),
        ),
{
    let transfer_id = reader.array_16()?;
    let name = reader.string()?;
    let size: u64 = reader.u64()?;
    let chunk_size: u32 = reader.u32()?;
    let sha256 = reader.array_32()?;
    Ok(WireMessage::FileOffer { transfer_id, name, size, chunk_size, sha256 })
}

fn file_chunk(reader: &mut Reader) -> (result: Result<WireMessage, DcError>)
    requires
        old(reader).wf(),
    ensures
        message_read(
            *old(reader),
            *final(reader),
            result,
            read_file_chunk(old(reader).input@, old(reader).state()),
        ),
{
    let transfer_id = reader.array_16()?;
    let offset: u64 = reader.u64()?;
    let data = reader.bytes()?;
    let sha256 = reader.array_32()?;
    Ok(WireMessage::FileChunk { transfer_id, offset, data, sha256 })
}

fn file_ack(reader: &mut Reader) -> (result: Result<WireMessage, DcError>)
    requires
        old(reader).wf(),
    ensures
        message_read(
            *old(reader),
            *final(reader),
            result,
            read_file_ack(old(reader).input@, old(reader).state()),
        ),
{
    let transfer_id = reader.array_16()?;
    let next_offset: u64 = reader.u64()?;
    Ok(WireMessage::FileAck { transfer_id, next_offset })
}

fn body(kind: u8, reader: &mut Reader) -> (result: Result<WireMessage, DcError>)
    requires
        old(reader).wf(),
    ensures
        message_read(
            *old(reader),
            *final(reader),
            result,
            read_body(kind, old(reader).input@, old(reader).state()),
        ),
{
    match kind {
        1 => hello(reader),
        2 => challenge(reader),
        3 => authenticate(reader),
        4 => authenticated(reader),
        5 => rejected(reader),
        6 => Ok(WireMessage::OpenDesktop),
        7 => video(reader),
        8 => {
            let event = event(reader)?;
            Ok(WireMessage::Input(event))
        },
        9 => rate_hint(reader),
        10 => file_offer(reader),
        11 => file_chunk(reader),
        12 => file_ack(reader),
        13 => Ok(WireMessage::Close),
        14 => {
            let last_sequence: u64 = reader.u64()?;
            Ok(WireMessage::KeyframeRequest { last_sequence })
        },
        15 => {
            let sequence: u64 = reader.u64()?;
            Ok(WireMessage::KeyframeAck { sequence })
        },
        16 => desktop_update(reader),
        17 => cursor(reader),
        _ => Err(DcError::Codec(with_number("unknown protocol message type ", kind as u64))),
    }
}

impl WireMessage {
    /// Decode one message; the input has to hold exactly one.
    pub fn decode(input: &[u8]) -> (result: Result<WireMessage, DcError>)
        ensures
            match result {
                Ok(message) => parse_message(input@) == Ok::<MessageView, DcErrorView>(message@),
                Err(e) => parse_message(input@) == Err::<MessageView, DcErrorView>(e@),
            },
    {
        if input.len() == 0 || input.len() > MAX_MESSAGE_SIZE {
            return Err(DcError::codec("invalid protocol message length"));
        }
        let mut reader = Reader::new(input, 1);
        let message = body(input[0], &mut reader)?;
        if reader.offset != input.len() {
            return Err(DcError::codec("trailing bytes in protocol message"));
        }
        Ok(message)
    }
}

} // verus!
