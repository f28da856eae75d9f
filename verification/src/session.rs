//! Session lifecycle: its states and the handshake that opens it.
use vstd::prelude::*;

pub mod handshake;

verus! {

#[derive(Clone, Copy, Debug, Eq, PartialEq, Structural)]
pub enum SessionState {
    Created,
    Negotiating,
    Active,
    Closing,
    Closed,
}

} // verus!
