pub mod fingerprint;
pub mod framing;
pub mod pins;
pub mod state;

pub use fingerprint::{certificate_fingerprint, format_fingerprint, parse_fingerprint};
pub use framing::{frame_length, frame_message, unframe_message};
pub use pins::CertificatePinStore;
pub use state::{ConnectionState, PinningPolicy};
