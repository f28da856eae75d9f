//! Writing messages.
use crate::bytes::{put_bytes, put_flag, put_i32, put_slice, put_string, put_u16, put_u32, put_u64};
use crate::error::{DcError, DcErrorView};
use crate::protocol::format::{
    body_bytes, capability_bytes, capability_flags, encode_failure, event_bytes, kind_byte,
    message_bytes, payload_len, rect_bytes, rects_bytes, shape_bytes, weighted,
};
use crate::protocol::types::{
    Capabilities, CursorShape, DesktopRect, InputEvent, WireMessage, MAX_DESKTOP_REGIONS,
    MAX_MESSAGE_SIZE,
};
use vstd::prelude::*;

verus! {

fn weight(bit: bool, value: u16) -> (result: u16)
    ensures
        result == weighted(bit, value as nat),
        result <= value,
{
    reveal(weighted);
    if bit {
        value
    } else {
        0
    }
}

fn flags_of(value: Capabilities) -> (flags: u16)
    ensures
        flags == capability_flags(value),
{
    let desktop: u16 = weight(value.desktop, 1);
    let terminal: u16 = weight(value.terminal, 2);
    let command: u16 = weight(value.command_execution, 4);
    let file: u16 = weight(value.file_transfer, 8);
    let clipboard: u16 = weight(value.clipboard, 16);
    let ssh: u16 = weight(value.ssh_compatibility, 32);
    let control: u16 = weight(value.control_input, 64);
    let hybrid: u16 = weight(value.hybrid_video, 128);
    let optimized: u16 = weight(value.desktop_optimizations, 256);
    let nal: u16 = weight(value.h264_nal_datagrams, 512);
    desktop + terminal + command + file + clipboard + ssh + control + hybrid + optimized + nal
}

fn put_capabilities(out: &mut Vec<u8>, value: Capabilities)
    ensures
        final(out)@ == old(out)@ + capability_bytes(value),
{
    put_u16(out, flags_of(value));
}

fn put_rect(out: &mut Vec<u8>, rect: &DesktopRect)
    ensures
        final(out)@ == old(out)@ + rect_bytes(*rect),
{
    put_u32(out, rect.x);
    put_u32(out, rect.y);
    put_u32(out, rect.width);
    put_u32(out, rect.height);
    assert(out@ =~= old(out)@ + rect_bytes(*rect));
}

fn put_rects(out: &mut Vec<u8>, rects: &Vec<DesktopRect>)
    ensures
        final(out)@ == old(out)@ + rects_bytes(rects@),
{
    let mut index: usize = 0;
    assert(rects@.take(0) =~= Seq::empty());
    assert(out@ =~= old(out)@ + rects_bytes(rects@.take(0)));
    while index < rects.len()
        invariant
            index <= rects@.len(),
            out@ == old(out)@ + rects_bytes(rects@.take(index as int)),
        decreases rects@.len() - index,
    {
        put_rect(out, &rects[index]);
        proof {
            let more = rects@.take(index as int + 1);
            assert(more.drop_last() =~= rects@.take(index as int));
            assert(out@ =~= old(out)@ + rects_bytes(more));
        }
        index = index + 1;
    }
    assert(rects@.take(index as int) =~= rects@);
}

fn put_shape(out: &mut Vec<u8>, shape: &CursorShape) -> (result: Result<(), DcError>)
    ensures
        match result {
            Ok(_) => shape.data@.len() <= u32::MAX && final(out)@ == old(out)@ + shape_bytes(
                shape@,
            ),
            Err(e) => shape.data@.len() > u32::MAX && e@ == DcErrorView::InvalidInput(
                "payload is too large"@,
            ),
        },
{
    out.push(shape.kind);
    put_u32(out, shape.width);
    put_u32(out, shape.height);
    put_u32(out, shape.hotspot_x);
    put_u32(out, shape.hotspot_y);
    put_u32(out, shape.pitch);
    put_bytes(out, shape.data.as_slice())?;
    assert(out@ =~= old(out)@ + shape_bytes(shape@));
    Ok(())
}

fn put_event(out: &mut Vec<u8>, event: &InputEvent)
    ensures
        final(out)@ == old(out)@ + event_bytes(*event),
{
    match event {
        InputEvent::Pointer { x, y, buttons } => {
            out.push(1);
            put_i32(out, *x);
            put_i32(out, *y);
            out.push(*buttons);
        },
        InputEvent::Key { key, pressed } => {
            out.push(2);
            put_u16(out, key.wire_code());
            put_flag(out, *pressed);
        },
        InputEvent::Wheel { delta_x, delta_y } => {
            out.push(3);
            put_i32(out, *delta_x);
            put_i32(out, *delta_y);
        },
    }
    assert(out@ =~= old(out)@ + event_bytes(*event));
}

/// Writes the fields of a message that carries pictures.
fn put_media_body(out: &mut Vec<u8>, message: &WireMessage) -> (result: Result<(), DcError>)
    requires
        message is Video || message is DesktopUpdate || message is Cursor,
    ensures
        match result {
            Ok(_) => payload_len(message@) <= u32::MAX && final(out)@ == old(out)@ + body_bytes(
                message@,
            ),
            Err(e) => payload_len(message@) > u32::MAX && e@ == DcErrorView::InvalidInput(
                "payload is too large"@,
            ),
        },
{
    match message {
        WireMessage::Video {
            codec,
            sequence,
            timestamp_millis,
            keyframe,
            width,
            height,
            pixel_format,
            stride,
            data,
        } => {
            out.push(*codec);
            put_u64(out, *sequence);
            put_u64(out, *timestamp_millis);
            put_flag(out, *keyframe);
            put_u32(out, *width);
            put_u32(out, *height);
            out.push(*pixel_format);
            put_u32(out, *stride);
            put_bytes(out, data.as_slice())?;
        },
        WireMessage::DesktopUpdate {
            sequence,
            timestamp_millis,
            desktop_width,
            desktop_height,
            encoding,
            regions,
            data,
        } => {
            put_u64(out, *sequence);
            put_u64(out, *timestamp_millis);
            put_u32(out, *desktop_width);
            put_u32(out, *desktop_height);
            out.push(*encoding);
            crate::bytes::put_uint(out, regions.len() as u64, 2);
            put_rects(out, regions);
            put_bytes(out, data.as_slice())?;
        },
        WireMessage::Cursor { sequence, visible, x, y, shape } => {
            put_u64(out, *sequence);
            put_flag(out, *visible);
            put_i32(out, *x);
            put_i32(out, *y);
            match shape {
                Some(shape) => {
                    out.push(1);
                    put_shape(out, shape)?;
                },
                None => {
                    out.push(0);
                },
            }
        },
        _ => {},
    }
    assert(out@ =~= old(out)@ + body_bytes(message@));
    Ok(())
}

/// Writes the fields of a message of a file transfer.
fn put_file_body(out: &mut Vec<u8>, message: &WireMessage) -> (result: Result<(), DcError>)
    requires
        message is FileOffer || message is FileChunk || message is FileAck,
    ensures
        match result {
            Ok(_) => payload_len(message@) <= u32::MAX && final(out)@ == old(out)@ + body_bytes(
                message@,
            ),
            Err(e) => payload_len(message@) > u32::MAX && e@ == DcErrorView::InvalidInput(
                "payload is too large"@,
            ),
        },
{
    match message {
        WireMessage::FileOffer { transfer_id, name, size, chunk_size, sha256 } => {
            put_slice(out, transfer_id.as_slice());
            put_string(out, name.as_str())?;
            put_u64(out, *size);
            put_u32(out, *chunk_size);
            put_slice(out, sha256.as_slice());
        },
        WireMessage::FileChunk { transfer_id, offset, data, sha256 } => {
            put_slice(out, transfer_id.as_slice());
            put_u64(out, *offset);
            put_bytes(out, data.as_slice())?;
            put_slice(out, sha256.as_slice());
        },
        WireMessage::FileAck { transfer_id, next_offset } => {
            put_slice(out, transfer_id.as_slice());
            put_u64(out, *next_offset);
        },
        _ => {},
    }
    assert(out@ =~= old(out)@ + body_bytes(message@));
    Ok(())
}

/// Writes the fields of a message that sets up a session.
fn put_session_body(out: &mut Vec<u8>, message: &WireMessage) -> (result: Result<(), DcError>)
    requires
        message is Hello || message is Challenge || message is Authenticate || message is Authenticated || message is Rejected,
    ensures
        match result {
            Ok(_) => payload_len(message@) <= u32::MAX && final(out)@ == old(out)@ + body_bytes(
                message@,
            ),
            Err(e) => payload_len(message@) > u32::MAX && e@ == DcErrorView::InvalidInput(
                "payload is too large"@,
            ),
        },
{
    match message {
        WireMessage::Hello(hello) => {
            put_u16(out, hello.protocol_version.major);
            put_u16(out, hello.protocol_version.minor);
            put_capabilities(out, hello.capabilities);
        },
        WireMessage::Challenge { nonce, salt } => {
            put_slice(out, nonce.as_slice());
            // Challenge salts are public and allow a client to derive the same verifier.
            // They are still length-delimited to keep the decoder allocation-bounded.
            put_string(out, salt.as_str())?;
        },
        WireMessage::Authenticate { proof: proof_bytes } => {
            put_slice(out, proof_bytes.as_slice());
        },
        WireMessage::Authenticated { permissions } => {
            put_capabilities(out, *permissions);
        },
        WireMessage::Rejected { reason } => {
            put_string(out, reason.as_str())?;
        },
        _ => {},
    }
    assert(out@ =~= old(out)@ + body_bytes(message@));
    Ok(())
}

/// Writes the fields of a message behind its kind.
fn put_body(out: &mut Vec<u8>, message: &WireMessage) -> (result: Result<(), DcError>)
    ensures
        match result {
            Ok(_) => payload_len(message@) <= u32::MAX && final(out)@ == old(out)@ + body_bytes(
                message@,
            ),
            Err(e) => payload_len(message@) > u32::MAX && e@ == DcErrorView::InvalidInput(
                "payload is too large"@,
            ),
        },
{
    match message {
        WireMessage::Hello(_)
        | WireMessage::Challenge { .. }
        | WireMessage::Authenticate { .. }
        | WireMessage::Authenticated { .. }
        | WireMessage::Rejected { .. } => {
            return put_session_body(out, message);
        },
        WireMessage::Video { .. }
        | WireMessage::DesktopUpdate { .. }
        | WireMessage::Cursor { .. } => {
            return put_media_body(out, message);
        },
        WireMessage::FileOffer { .. }
        | WireMessage::FileChunk { .. }
        | WireMessage::FileAck { .. } => {
            return put_file_body(out, message);
        },
        WireMessage::Input(event) => {
            put_event(out, event);
        },
        WireMessage::RateHint { bitrate, frames_per_second } => {
            put_u32(out, *bitrate);
            put_u16(out, *frames_per_second);
        },
        WireMessage::KeyframeRequest { last_sequence } => {
            put_u64(out, *last_sequence);
        },
        WireMessage::KeyframeAck { sequence } => {
            put_u64(out, *sequence);
        },
        WireMessage::OpenDesktop => {},
        WireMessage::Close => {},
    }
    assert(out@ =~= old(out)@ + body_bytes(message@));
    Ok(())
}

impl WireMessage {
    fn kind(&self) -> (kind: u8)
        ensures
            kind == kind_byte(self@),
    {
        match self {
            WireMessage::Hello(_) => 1,
            WireMessage::Challenge { .. } => 2,
            WireMessage::Authenticate { .. } => 3,
            WireMessage::Authenticated { .. } => 4,
            WireMessage::Rejected { .. } => 5,
            WireMessage::OpenDesktop => 6,
            WireMessage::Video { .. } => 7,
            WireMessage::Input(_) => 8,
            WireMessage::RateHint { .. } => 9,
            WireMessage::FileOffer { .. } => 10,
            WireMessage::FileChunk { .. } => 11,
            WireMessage::FileAck { .. } => 12,
            WireMessage::Close => 13,
            WireMessage::KeyframeRequest { .. } => 14,
            WireMessage::KeyframeAck { .. } => 15,
            WireMessage::DesktopUpdate { .. } => 16,
            WireMessage::Cursor { .. } => 17,
        }
    }

    /// Encode one message without a transport-specific framing header.
    pub fn encode(&self) -> (result: Result<Vec<u8>, DcError>)
        ensures
            match result {
                Ok(bytes) => encode_failure(self@) is None && bytes@ == message_bytes(self@),
                Err(e) => encode_failure(self@) == Some(e@),
            },
    {
        if let WireMessage::DesktopUpdate { regions, .. } = self {
            if regions.len() == 0 || regions.len() > MAX_DESKTOP_REGIONS {
                return Err(DcError::invalid_input("desktop update has an invalid region count"));
            }
        }
        let mut output: Vec<u8> = Vec::new();
        output.push(self.kind());
        put_body(&mut output, self)?;
        assert(output@ =~= message_bytes(self@));
        if output.len() > MAX_MESSAGE_SIZE {
            return Err(DcError::invalid_input("protocol message exceeds size limit"));
        }
        Ok(output)
    }
}

} // verus!
