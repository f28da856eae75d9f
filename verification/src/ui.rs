//! What the preview window shows, and the input that it takes.
use vstd::prelude::*;

pub mod cursor;
pub mod keys;
pub mod laws;
pub mod outline;
pub mod pacing;
pub mod picture;
pub mod preview;
pub mod window;

pub use keys::{map_key, WindowKey};
pub use pacing::PreviewPace;
pub use picture::convert_to_minifb;
pub use preview::{PreviewWindowSink, WindowInput};
pub use window::initial_window_size;

verus! {

#[derive(Clone, Copy, Debug, Eq, PartialEq, Structural)]
pub enum ApplicationRole {
    Host,
    Viewer,
}

} // verus!
