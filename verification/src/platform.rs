//! What the operating systems' adapters share, and the decisions that they make.
use crate::error::DcError;
use crate::protocol::InputEvent;
use vstd::prelude::*;

pub mod capture;
pub mod fallback;
pub mod injector;
pub mod media_foundation;
pub mod nv12;
pub mod video_toolbox;
pub mod windows_keys;
pub mod x264;

pub use capture::WindowsDesktopCapturer;
pub use injector::WindowsInputInjector;
pub use media_foundation::{WindowsMediaFoundationH264Decoder, WindowsMediaFoundationH264Encoder};
pub use video_toolbox::VideoToolboxH264Decoder;
pub use windows_keys::windows_key_input;
pub use x264::X264Encoder;

verus! {

/// Sink for authenticated remote input events.
pub trait InputInjector {
    fn inject(&mut self, event: &InputEvent) -> Result<(), DcError>;
}

/// Source of local viewer input events. Implementations return events observed since the previous
/// call.
pub trait InputEventSource {
    fn drain_input_events(&mut self) -> Vec<InputEvent>;
}

pub trait ClipboardProvider {

}

pub trait TerminalBackend {

}

pub trait PermissionManager {

}

pub trait SystemService {

}

} // verus!
