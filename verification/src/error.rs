//! The errors with which the adapter refuses a request or a response.

use vstd::prelude::*;

verus! {

/// Why an operation failed.
#[derive(Debug, Clone, PartialEq, Eq)]
pub enum Error {
    /// The index is outside the registry; nothing was asked of the transport.
    InvalidArgument(String),
    /// The response is no boolean or no text.
    DecodeError(String),
    /// The response is no number.
    ParseError(String),
}

/// An error with its message as a sequence of characters.
pub enum ErrorView {
    InvalidArgument(Seq<char>),
    DecodeError(Seq<char>),
    ParseError(Seq<char>),
}

impl View for Error {
    type V = ErrorView;

    open spec fn view(&self) -> ErrorView {
        match self {
            Error::InvalidArgument(m) => ErrorView::InvalidArgument(m@),
            Error::DecodeError(m) => ErrorView::DecodeError(m@),
            Error::ParseError(m) => ErrorView::ParseError(m@),
        }
    }
}

impl Error {
    /// The message of the error.
    pub fn message(&self) -> (message: &str)
        ensures
            self@ == ErrorView::InvalidArgument(message@) || self@ == ErrorView::DecodeError(
                message@,
            ) || self@ == ErrorView::ParseError(message@),
    {
        match self {
            Error::InvalidArgument(m) => m.as_str(),
            Error::DecodeError(m) => m.as_str(),
            Error::ParseError(m) => m.as_str(),
        }
    }
}

} // verus!
