//! The vocabulary between the protocol state machines and the owner of the
//! serial link: the actions that a machine asks for, the events that come of
//! them, and the step that a machine answers an event with.

use vstd::prelude::*;
use crate::error::{ErrorView, ProtocolError};

verus! {

/// A read timeout, as whole seconds plus a sub-second part in nanoseconds.
#[derive(Debug, Clone, Copy, PartialEq, Eq, Structural)]
pub struct Timeout {
    pub secs: u64,
    pub nanos: u32,
}

impl Timeout {
    /// The timeout of `ms` milliseconds.
    pub fn from_millis(ms: u32) -> (t: Timeout)
        ensures
            t.secs == ms / 1000,
            t.nanos == (ms % 1000) * 1_000_000,
    {
        Timeout { secs: (ms / 1000) as u64, nanos: (ms % 1000) * 1_000_000 }
    }
}

/// What the owner of the link is asked to do next.
#[derive(Debug, Clone, PartialEq, Eq)]
pub enum Action {
    /// Write all of these bytes.
    Write(Vec<u8>),
    /// Read and discard until a read times out or the stream ends.
    Drain,
    /// Report the link's current read timeout.
    QueryTimeout,
    /// Change the link's read timeout.
    SetTimeout(Timeout),
    /// Read exactly this many bytes.
    ReadExact(usize),
}

/// An `Action` with its payload as a mathematical sequence.
pub enum ActionView {
    Write(Seq<u8>),
    Drain,
    QueryTimeout,
    SetTimeout(Timeout),
    ReadExact(nat),
}

impl View for Action {
    type V = ActionView;

    open spec fn view(&self) -> ActionView {
        match *self {
            Action::Write(bytes) => ActionView::Write(bytes@),
            Action::Drain => ActionView::Drain,
            Action::QueryTimeout => ActionView::QueryTimeout,
            Action::SetTimeout(t) => ActionView::SetTimeout(t),
            Action::ReadExact(n) => ActionView::ReadExact(n as nat),
        }
    }
}

/// What the owner of the link reports back after an action.
#[derive(Debug, Clone, PartialEq, Eq)]
pub enum Event {
    /// The bytes were written.
    Written,
    /// The drain ended.
    Drained,
    /// The link's current read timeout.
    TimeoutIs(Timeout),
    /// The read timeout was changed.
    TimeoutSet,
    /// The bytes that a read returned.
    Data(Vec<u8>),
    /// The operation timed out.
    TimedOut,
    /// The operation was interrupted before it transferred anything.
    Interrupted,
    /// The operation failed with something other than a timeout or an
    /// interruption.
    Failed,
}

/// An `Event` with its payload as a mathematical sequence.
pub enum EventView {
    Written,
    Drained,
    TimeoutIs(Timeout),
    TimeoutSet,
    Data(Seq<u8>),
    TimedOut,
    Interrupted,
    Failed,
}

impl View for Event {
    type V = EventView;

    open spec fn view(&self) -> EventView {
        match *self {
            Event::Written => EventView::Written,
            Event::Drained => EventView::Drained,
            Event::TimeoutIs(t) => EventView::TimeoutIs(t),
            Event::TimeoutSet => EventView::TimeoutSet,
            Event::Data(bytes) => EventView::Data(bytes@),
            Event::TimedOut => EventView::TimedOut,
            Event::Interrupted => EventView::Interrupted,
            Event::Failed => EventView::Failed,
        }
    }
}

/// The error that an event stands for where it is not the one that was
/// awaited: a timeout, an I/O failure, or an event out of order.
pub open spec fn failure_of(event: EventView) -> ErrorView {
    match event {
        EventView::TimedOut => ErrorView::TimedOut,
        EventView::Interrupted | EventView::Failed => ErrorView::IOError,
        _ => ErrorView::OutOfOrder,
    }
}

impl Event {
    /// The error that this event stands for where it is not the awaited one.
    pub fn failure(&self) -> (error: ProtocolError)
        ensures
            error@ == failure_of(self@),
    {
        match self {
            Event::TimedOut => ProtocolError::TimedOut,
            Event::Interrupted | Event::Failed => ProtocolError::IOError,
            _ => ProtocolError::OutOfOrder,
        }
    }
}

/// Whether two byte strings are the same, byte for byte.
pub fn bytes_equal(a: &Vec<u8>, b: &Vec<u8>) -> (same: bool)
    ensures
        same == (a@ == b@),
{
    if a.len() != b.len() {
        return false;
    }
    let mut i: usize = 0;
    while i < a.len()
        invariant
            a.len() == b.len(),
            i <= a.len(),
            forall|k: int| 0 <= k < i ==> a@[k] == b@[k],
        decreases a.len() - i,
    {
        if a[i] != b[i] {
            return false;
        }
        i += 1;
    }
    assert(a@ =~= b@);
    true
}

/// Appends a copy of `bytes` to `out`.
pub fn append_bytes(out: &mut Vec<u8>, bytes: &Vec<u8>)
    ensures
        final(out)@ == old(out)@ + bytes@,
{
    let mut i: usize = 0;
    while i < bytes.len()
        invariant
            i <= bytes.len(),
            out@ == old(out)@ + bytes@.subrange(0, i as int),
        decreases bytes.len() - i,
    {
        out.push(bytes[i]);
        assert(bytes@.subrange(0, i + 1) =~= bytes@.subrange(0, i as int).push(bytes@[i as int]));
        i += 1;
    }
    assert(bytes@.subrange(0, i as int) =~= bytes@);
}

/// How one round of a conversation with the link ends: with a further action
/// to perform, with the result, or with a failure.
#[derive(Debug, PartialEq, Eq)]
pub enum Step<S, T> {
    /// Perform the action and hand its event to the new state.
    Next(S, Action),
    /// The conversation is over and succeeded.
    Done(T),
    /// The conversation is over and failed.
    Failed(ProtocolError),
}

/// A `Step` over the views of its parts.
pub enum StepView<S, T> {
    Next(S, ActionView),
    Done(T),
    Failed(ErrorView),
}

impl<S: View, T: View> View for Step<S, T> {
    type V = StepView<S::V, T::V>;

    open spec fn view(&self) -> StepView<S::V, T::V> {
        match *self {
            Step::Next(state, action) => StepView::Next(state@, action@),
            Step::Done(value) => StepView::Done(value@),
            Step::Failed(error) => StepView::Failed(error@),
        }
    }
}

} // verus!
