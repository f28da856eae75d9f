//! The error type shared by every module.
use crate::text::{joined, owned};
use vstd::prelude::*;

verus! {

/// The common error type used at module boundaries. An I/O failure carries its text: the
/// program around the library performs the I/O and reports what went wrong.
#[derive(Debug)]
pub enum DcError {
    InvalidInput(String),
    Unsupported(String),
    Io(String),
    Codec(String),
    Platform(String),
    Timeout(String),
}

/// What a [`DcError`] says: its kind and its message.
pub enum DcErrorView {
    InvalidInput(Seq<char>),
    Unsupported(Seq<char>),
    Io(Seq<char>),
    Codec(Seq<char>),
    Platform(Seq<char>),
    Timeout(Seq<char>),
}

impl View for DcError {
    type V = DcErrorView;

    open spec fn view(&self) -> DcErrorView {
        match *self {
            DcError::InvalidInput(message) => DcErrorView::InvalidInput(message@),
            DcError::Unsupported(message) => DcErrorView::Unsupported(message@),
            DcError::Io(message) => DcErrorView::Io(message@),
            DcError::Codec(message) => DcErrorView::Codec(message@),
            DcError::Platform(message) => DcErrorView::Platform(message@),
            DcError::Timeout(message) => DcErrorView::Timeout(message@),
        }
    }
}

impl DcErrorView {
    /// The line shown to a user: the kind, a colon and the message.
    pub open spec fn description(self) -> Seq<char> {
        match self {
            DcErrorView::InvalidInput(message) => "invalid input: "@ + message,
            DcErrorView::Unsupported(message) => "unsupported: "@ + message,
            DcErrorView::Io(message) => "I/O error: "@ + message,
            DcErrorView::Codec(message) => "codec error: "@ + message,
            DcErrorView::Platform(message) => "platform error: "@ + message,
            DcErrorView::Timeout(message) => "timeout: "@ + message,
        }
    }
}

impl DcError {
    /// The line shown to a user: the kind, a colon and the message.
    pub fn description(&self) -> (result: String)
        ensures
            result@ == self@.description(),
    {
        match self {
            DcError::InvalidInput(message) => joined("invalid input: ", message.as_str()),
            DcError::Unsupported(message) => joined("unsupported: ", message.as_str()),
            DcError::Io(message) => joined("I/O error: ", message.as_str()),
            DcError::Codec(message) => joined("codec error: ", message.as_str()),
            DcError::Platform(message) => joined("platform error: ", message.as_str()),
            DcError::Timeout(message) => joined("timeout: ", message.as_str()),
        }
    }

    pub(crate) fn invalid_input(message: &str) -> (error: DcError)
        ensures
            error@ == DcErrorView::InvalidInput(message@),
    {
        DcError::InvalidInput(owned(message))
    }

    pub(crate) fn unsupported(message: &str) -> (error: DcError)
        ensures
            error@ == DcErrorView::Unsupported(message@),
    {
        DcError::Unsupported(owned(message))
    }

    pub(crate) fn codec(message: &str) -> (error: DcError)
        ensures
            error@ == DcErrorView::Codec(message@),
    {
        DcError::Codec(owned(message))
    }

    pub(crate) fn platform(message: &str) -> (error: DcError)
        ensures
            error@ == DcErrorView::Platform(message@),
    {
        DcError::Platform(owned(message))
    }
}

/// An error is described by its kind and its message.
pub proof fn law_errors_are_described(message: Seq<char>)
    ensures
        DcErrorView::InvalidInput(message).description() == "invalid input: "@ + message,
        DcErrorView::Unsupported(message).description() == "unsupported: "@ + message,
        DcErrorView::Io(message).description() == "I/O error: "@ + message,
        DcErrorView::Codec(message).description() == "codec error: "@ + message,
        DcErrorView::Platform(message).description() == "platform error: "@ + message,
        DcErrorView::Timeout(message).description() == "timeout: "@ + message,
{
}

} // verus!
