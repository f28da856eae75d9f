//! The messages of the protocol and the values they carry.
use crate::error::{DcError, DcErrorView};
use crate::protocol::keys::KeyboardKey;
use crate::text::{decimal, decimal_text, joined};
use vstd::prelude::*;

verus! {

/// The major number of the protocol that this library speaks.
pub const PROTOCOL_MAJOR: u16 = 2;

/// The minor number of the protocol that this library speaks.
pub const PROTOCOL_MINOR: u16 = 0;

/// Maximum encoded protocol message accepted from a peer.  Keeping this limit at the
/// protocol boundary prevents a malformed length field from turning into an allocation
/// request controlled by the remote endpoint.
pub const MAX_MESSAGE_SIZE: usize = 16 * 1024 * 1024;

pub const MAX_DESKTOP_REGIONS: usize = 256;

#[derive(Clone, Copy, Debug, Eq, Ord, PartialEq, PartialOrd, Structural)]
pub struct ProtocolVersion {
    pub major: u16,
    pub minor: u16,
}

/// The version of the protocol that this library speaks.
pub open spec fn this_version() -> ProtocolVersion {
    ProtocolVersion { major: PROTOCOL_MAJOR, minor: PROTOCOL_MINOR }
}

impl ProtocolVersion {
    /// The version of the protocol that this library speaks.
    pub fn current() -> (version: ProtocolVersion)
        ensures
            version == this_version(),
    {
        ProtocolVersion { major: PROTOCOL_MAJOR, minor: PROTOCOL_MINOR }
    }

    /// Versions are compatible when they share the major number.
    pub open spec fn compatible(self, other: ProtocolVersion) -> bool {
        self.major == other.major
    }

    pub fn compatible_with(self, other: Self) -> (result: bool)
        ensures
            result == self.compatible(other),
    {
        self.major == other.major
    }
}

#[derive(Clone, Copy, Debug, Eq, PartialEq, Structural)]
pub enum ServiceKind {
    Desktop,
    Terminal,
    Command,
    FileTransfer,
    Clipboard,
}

#[derive(Clone, Copy, Debug, Eq, PartialEq, Structural)]
pub struct Capabilities {
    pub desktop: bool,
    pub control_input: bool,
    pub terminal: bool,
    pub command_execution: bool,
    pub file_transfer: bool,
    pub clipboard: bool,
    pub ssh_compatibility: bool,
    /// Supports reliable keyframes plus datagram inter frames.
    pub hybrid_video: bool,
    /// Supports dirty-region updates and a separately composited pointer.
    pub desktop_optimizations: bool,
    /// Supports packetization by H.264 NAL unit.
    pub h264_nal_datagrams: bool,
}

/// No capability at all.
pub open spec fn no_capabilities() -> Capabilities {
    Capabilities {
        desktop: false,
        control_input: false,
        terminal: false,
        command_execution: false,
        file_transfer: false,
        clipboard: false,
        ssh_compatibility: false,
        hybrid_video: false,
        desktop_optimizations: false,
        h264_nal_datagrams: false,
    }
}

impl Default for Capabilities {
    fn default() -> (result: Self)
        ensures
            result == no_capabilities(),
    {
        Capabilities {
            desktop: false,
            control_input: false,
            terminal: false,
            command_execution: false,
            file_transfer: false,
            clipboard: false,
            ssh_compatibility: false,
            hybrid_video: false,
            desktop_optimizations: false,
            h264_nal_datagrams: false,
        }
    }
}

#[derive(Clone, Copy, Debug, Eq, PartialEq, Structural)]
pub struct DesktopRect {
    pub x: u32,
    pub y: u32,
    pub width: u32,
    pub height: u32,
}

#[derive(Clone, Debug, Eq, PartialEq)]
pub struct CursorShape {
    pub kind: u8,
    pub width: u32,
    pub height: u32,
    pub hotspot_x: u32,
    pub hotspot_y: u32,
    pub pitch: u32,
    pub data: Vec<u8>,
}

#[derive(Clone, Copy, Debug, Eq, PartialEq, Structural)]
pub struct Hello {
    pub protocol_version: ProtocolVersion,
    pub capabilities: Capabilities,
}

impl Default for Hello {
    fn default() -> (result: Self)
        ensures
            result.protocol_version == this_version(),
            result.capabilities == no_capabilities(),
    {
        Hello { protocol_version: ProtocolVersion::current(), capabilities: Capabilities::default() }
    }
}

#[derive(Clone, Copy, Debug, Eq, PartialEq, Structural)]
pub enum InputEvent {
    Pointer { x: i32, y: i32, buttons: u8 },
    Wheel { delta_x: i32, delta_y: i32 },
    Key { key: KeyboardKey, pressed: bool },
}

#[derive(Clone, Debug, Eq, PartialEq)]
pub enum WireMessage {
    Hello(Hello),
    Challenge { nonce: [u8; 32], salt: String },
    Authenticate { proof: [u8; 32] },
    Authenticated { permissions: Capabilities },
    Rejected { reason: String },
    OpenDesktop,
    Video {
        codec: u8,
        sequence: u64,
        timestamp_millis: u64,
        keyframe: bool,
        width: u32,
        height: u32,
        pixel_format: u8,
        stride: u32,
        data: Vec<u8>,
    },
    Input(InputEvent),
    RateHint { bitrate: u32, frames_per_second: u16 },
    /// Ask the encoder to emit a fresh intra frame after a lossy media gap.
    KeyframeRequest { last_sequence: u64 },
    /// Confirms that a reliable recovery anchor was decoded and presented.
    /// The host uses this to avoid queuing duplicate keyframes on a narrow link.
    KeyframeAck { sequence: u64 },
    DesktopUpdate {
        sequence: u64,
        timestamp_millis: u64,
        desktop_width: u32,
        desktop_height: u32,
        encoding: u8,
        regions: Vec<DesktopRect>,
        data: Vec<u8>,
    },
    Cursor { sequence: u64, visible: bool, x: i32, y: i32, shape: Option<CursorShape> },
    FileOffer {
        transfer_id: [u8; 16],
        name: String,
        size: u64,
        chunk_size: u32,
        sha256: [u8; 32],
    },
    FileChunk { transfer_id: [u8; 16], offset: u64, data: Vec<u8>, sha256: [u8; 32] },
    FileAck { transfer_id: [u8; 16], next_offset: u64 },
    Close,
}

/// The contents of a [`CursorShape`].
pub struct CursorShapeView {
    pub kind: u8,
    pub width: u32,
    pub height: u32,
    pub hotspot_x: u32,
    pub hotspot_y: u32,
    pub pitch: u32,
    pub data: Seq<u8>,
}

impl View for CursorShape {
    type V = CursorShapeView;

    open spec fn view(&self) -> CursorShapeView {
        CursorShapeView {
            kind: self.kind,
            width: self.width,
            height: self.height,
            hotspot_x: self.hotspot_x,
            hotspot_y: self.hotspot_y,
            pitch: self.pitch,
            data: self.data@,
        }
    }
}

/// The contents of a [`WireMessage`], with sequences in place of buffers.
pub enum MessageView {
    Hello(Hello),
    Challenge { nonce: Seq<u8>, salt: Seq<char> },
    Authenticate { proof: Seq<u8> },
    Authenticated { permissions: Capabilities },
    Rejected { reason: Seq<char> },
    OpenDesktop,
    Video {
        codec: u8,
        sequence: u64,
        timestamp_millis: u64,
        keyframe: bool,
        width: u32,
        height: u32,
        pixel_format: u8,
        stride: u32,
        data: Seq<u8>,
    },
    Input(InputEvent),
    RateHint { bitrate: u32, frames_per_second: u16 },
    KeyframeRequest { last_sequence: u64 },
    KeyframeAck { sequence: u64 },
    DesktopUpdate {
        sequence: u64,
        timestamp_millis: u64,
        desktop_width: u32,
        desktop_height: u32,
        encoding: u8,
        regions: Seq<DesktopRect>,
        data: Seq<u8>,
    },
    Cursor { sequence: u64, visible: bool, x: i32, y: i32, shape: Option<CursorShapeView> },
    FileOffer {
        transfer_id: Seq<u8>,
        name: Seq<char>,
        size: u64,
        chunk_size: u32,
        sha256: Seq<u8>,
    },
    FileChunk { transfer_id: Seq<u8>, offset: u64, data: Seq<u8>, sha256: Seq<u8> },
    FileAck { transfer_id: Seq<u8>, next_offset: u64 },
    Close,
}

/// The contents of an optional cursor shape.
pub open spec fn shape_view(shape: Option<CursorShape>) -> Option<CursorShapeView> {
    match shape {
        Some(shape) => Some(shape@),
        None => None,
    }
}

impl View for WireMessage {
    type V = MessageView;

    open spec fn view(&self) -> MessageView {
        match *self {
            WireMessage::Hello(hello) => MessageView::Hello(hello),
            WireMessage::Challenge { nonce, salt } => MessageView::Challenge {
                nonce: nonce@,
                salt: salt@,
            },
            WireMessage::Authenticate { proof } => MessageView::Authenticate { proof: proof@ },
            WireMessage::Authenticated { permissions } => MessageView::Authenticated {
                permissions,
            },
            WireMessage::Rejected { reason } => MessageView::Rejected { reason: reason@ },
            WireMessage::OpenDesktop => MessageView::OpenDesktop,
            WireMessage::Video {
                codec,
                sequence,
                timestamp_millis,
                keyframe,
                width,
                height,
                pixel_format,
                stride,
                data,
            } => MessageView::Video {
                codec,
                sequence,
                timestamp_millis,
                keyframe,
                width,
                height,
                pixel_format,
                stride,
                data: data@,
            },
            WireMessage::Input(event) => MessageView::Input(event),
            WireMessage::RateHint { bitrate, frames_per_second } => MessageView::RateHint {
                bitrate,
                frames_per_second,
            },
            WireMessage::KeyframeRequest { last_sequence } => MessageView::KeyframeRequest {
                last_sequence,
            },
            WireMessage::KeyframeAck { sequence } => MessageView::KeyframeAck { sequence },
            WireMessage::DesktopUpdate {
                sequence,
                timestamp_millis,
                desktop_width,
                desktop_height,
                encoding,
                regions,
                data,
            } => MessageView::DesktopUpdate {
                sequence,
                timestamp_millis,
                desktop_width,
                desktop_height,
                encoding,
                regions: regions@,
                data: data@,
            },
            WireMessage::Cursor { sequence, visible, x, y, shape } => MessageView::Cursor {
                sequence,
                visible,
                x,
                y,
                shape: shape_view(shape),
            },
            WireMessage::FileOffer { transfer_id, name, size, chunk_size, sha256 } =>
                MessageView::FileOffer {
                    transfer_id: transfer_id@,
                    name: name@,
                    size,
                    chunk_size,
                    sha256: sha256@,
                },
            WireMessage::FileChunk { transfer_id, offset, data, sha256 } =>
                MessageView::FileChunk {
                    transfer_id: transfer_id@,
                    offset,
                    data: data@,
                    sha256: sha256@,
                },
            WireMessage::FileAck { transfer_id, next_offset } => MessageView::FileAck {
                transfer_id: transfer_id@,
                next_offset,
            },
            WireMessage::Close => MessageView::Close,
        }
    }
}

/// The failure for a peer whose major version differs.
pub open spec fn unsupported_version(version: ProtocolVersion) -> DcErrorView {
    DcErrorView::Unsupported(
        "protocol version "@ + decimal(version.major as nat) + "."@ + decimal(
            version.minor as nat,
        ) + " (expected major "@ + decimal(PROTOCOL_MAJOR as nat) + ")"@,
    )
}

/// Accepts exactly the versions that share this library's major number.
pub fn validate_version(version: ProtocolVersion) -> (result: Result<(), DcError>)
    ensures
        match result {
            Ok(_) => this_version().compatible(version),
            Err(e) => !this_version().compatible(version) && e@ == unsupported_version(version),
        },
{
    if ProtocolVersion::current().compatible_with(version) {
        Ok(())
    } else {
        let major = decimal_text(version.major as u64);
        let minor = decimal_text(version.minor as u64);
        let expected = decimal_text(PROTOCOL_MAJOR as u64);
        let message = joined("protocol version ", major.as_str());
        let message = joined(message.as_str(), ".");
        let message = joined(message.as_str(), minor.as_str());
        let message = joined(message.as_str(), " (expected major ");
        let message = joined(message.as_str(), expected.as_str());
        let message = joined(message.as_str(), ")");
        Err(DcError::Unsupported(message))
    }
}

} // verus!
