//! The ways in which a protocol operation ends without success.

use vstd::prelude::*;

verus! {

/// Why a protocol operation ended without success.
#[derive(Debug, Clone, PartialEq, Eq)]
pub enum ProtocolError {
    /// The transport failed with something other than a timeout.
    IOError,
    /// A read did not complete within the active timeout.
    TimedOut,
    /// A reply arrived but was not the expected one; carries what arrived.
    ProtocolMismatch(Vec<u8>),
    /// Every resynchronisation attempt timed out.
    ResyncExhausted,
    /// A command's parameters are outside their documented bounds.
    InvalidArgument,
    /// The machine was handed an event that does not answer the action it
    /// had asked for.
    OutOfOrder,
}

/// A `ProtocolError` with its payload as a mathematical sequence.
pub enum ErrorView {
    IOError,
    TimedOut,
    ProtocolMismatch(Seq<u8>),
    ResyncExhausted,
    InvalidArgument,
    OutOfOrder,
}

impl View for ProtocolError {
    type V = ErrorView;

    open spec fn view(&self) -> ErrorView {
        match *self {
            ProtocolError::IOError => ErrorView::IOError,
            ProtocolError::TimedOut => ErrorView::TimedOut,
            ProtocolError::ProtocolMismatch(bytes) => ErrorView::ProtocolMismatch(bytes@),
            ProtocolError::ResyncExhausted => ErrorView::ResyncExhausted,
            ProtocolError::InvalidArgument => ErrorView::InvalidArgument,
            ProtocolError::OutOfOrder => ErrorView::OutOfOrder,
        }
    }
}

} // verus!
