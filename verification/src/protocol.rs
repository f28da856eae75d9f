//! Versioned protocol primitives shared by hosts, viewers, and command line clients.
pub mod decode;
pub mod encode;
pub mod format;
pub mod keys;
pub mod laws;
pub mod types;
pub mod wire_laws;

pub use keys::KeyboardKey;
pub use types::{
    validate_version, Capabilities, CursorShape, DesktopRect, Hello, InputEvent, ProtocolVersion,
    ServiceKind, WireMessage, MAX_DESKTOP_REGIONS, MAX_MESSAGE_SIZE, PROTOCOL_MAJOR, PROTOCOL_MINOR,
};
