//! Direct Computing: the verified core of a direct-connection remote desktop.
pub mod auth;
pub mod bytes;
pub mod command;
pub mod desktop;
pub mod digest;
pub mod error;
pub mod file_transfer;
pub mod logging;
pub mod media;
pub mod platform;
pub mod protocol;
pub mod session;
pub mod stream;
pub mod text;
pub mod time;
pub mod transport;
pub mod ui;
