//! The device in an unknown state: the resynchronisation that forces it into
//! binary bitbang mode, and the reading of its banner.

use vstd::prelude::*;
use crate::banner::{banner_text, clean_banner};
use crate::bbio::{BBIOConn, BinModeVSN};
use crate::error::{ErrorView, ProtocolError};
use crate::link::{
    append_bytes, bytes_equal, failure_of, Action, ActionView, Event, EventView, Step, StepView, Timeout,
};

verus! {

/// How many times the device is poked with a zero byte before giving up.
pub const RESYNC_ATTEMPTS: u8 = 40;

/// The read timeout of a single attempt, in milliseconds.
pub const ATTEMPT_TIMEOUT_MS: u32 = 20;

/// What the device answers once it is in binary bitbang mode, version 1:
/// the ASCII text `BBIO1`.
pub open spec fn bitbang_magic() -> Seq<u8> {
    seq![0x42u8, 0x42u8, 0x49u8, 0x4fu8, 0x31u8]
}

/// What brings the device's terminal back to its command line, whatever
/// menu it was in: ten newlines, then `#` and a newline.
pub open spec fn escape_sequence() -> Seq<u8> {
    seq![10u8, 10u8, 10u8, 10u8, 10u8, 10u8, 10u8, 10u8, 10u8, 10u8, 0x23u8, 10u8]
}

/// The single zero byte of one attempt.
pub open spec fn poke() -> Seq<u8> {
    seq![0u8]
}

/// The read timeout of a single attempt.
pub open spec fn attempt_timeout() -> Timeout {
    Timeout { secs: 0, nanos: 20_000_000 }
}

/// Where a resynchronisation stands. Each state names the action whose event
/// it waits for.
#[derive(Debug, PartialEq, Eq)]
pub enum Resync {
    /// The escape sequence is being written.
    Escaping,
    /// Stale input is being drained.
    Draining,
    /// The link's own timeout is being asked for.
    Querying,
    /// The per-attempt timeout is being set; `saved` is the link's own.
    Shortening { saved: Timeout },
    /// The zero byte of attempt number `attempt` is being written.
    Poking { saved: Timeout, attempt: u8 },
    /// The reply to attempt number `attempt` is being read.
    Listening { saved: Timeout, attempt: u8 },
    /// The link's own timeout is being put back; `outcome` is decided.
    Restoring { outcome: Result<BinModeVSN, ProtocolError> },
}

/// A `Resync` whose pending outcome is a view.
pub enum ResyncView {
    Escaping,
    Draining,
    Querying,
    Shortening { saved: Timeout },
    Poking { saved: Timeout, attempt: u8 },
    Listening { saved: Timeout, attempt: u8 },
    Restoring { outcome: Result<BinModeVSN, ErrorView> },
}

impl View for Resync {
    type V = ResyncView;

    open spec fn view(&self) -> ResyncView {
        match *self {
            Resync::Escaping => ResyncView::Escaping,
            Resync::Draining => ResyncView::Draining,
            Resync::Querying => ResyncView::Querying,
            Resync::Shortening { saved } => ResyncView::Shortening { saved },
            Resync::Poking { saved, attempt } => ResyncView::Poking { saved, attempt },
            Resync::Listening { saved, attempt } => ResyncView::Listening { saved, attempt },
            Resync::Restoring { outcome } => ResyncView::Restoring {
                outcome: match outcome {
                    Ok(vsn) => Ok(vsn),
                    Err(error) => Err(error@),
                },
            },
        }
    }
}

/// The step that ends an attempt: the link's own timeout is put back before
/// `outcome` is reported.
pub open spec fn restore(saved: Timeout, outcome: Result<BinModeVSN, ErrorView>) -> StepView<
    ResyncView,
    BBIOConn,
> {
    StepView::Next(ResyncView::Restoring { outcome }, ActionView::SetTimeout(saved))
}

/// The resynchronisation as a transition function: from the state and the
/// event of the action that the state waited for, to the next step.
///
/// A timeout is the awaited end of the drain and the signal to try again
/// while attempts are left. A reply that is not the magic ends the run at
/// once. Whatever ends the run after the timeout was shortened puts the
/// link's own timeout back first.
pub open spec fn resync_step(state: ResyncView, event: EventView) -> StepView<
    ResyncView,
    BBIOConn,
> {
    match state {
        ResyncView::Escaping => match event {
            EventView::Written => StepView::Next(ResyncView::Draining, ActionView::Drain),
            _ => StepView::Failed(failure_of(event)),
        },
        ResyncView::Draining => match event {
            EventView::Drained | EventView::TimedOut => StepView::Next(
                ResyncView::Querying,
                ActionView::QueryTimeout,
            ),
            _ => StepView::Failed(failure_of(event)),
        },
        ResyncView::Querying => match event {
            EventView::TimeoutIs(saved) => StepView::Next(
                ResyncView::Shortening { saved },
                ActionView::SetTimeout(attempt_timeout()),
            ),
            _ => StepView::Failed(failure_of(event)),
        },
        ResyncView::Shortening { saved } => match event {
            EventView::TimeoutSet => StepView::Next(
                ResyncView::Poking { saved, attempt: 1 },
                ActionView::Write(poke()),
            ),
            _ => StepView::Failed(failure_of(event)),
        },
        ResyncView::Poking { saved, attempt } => match event {
            EventView::Written => StepView::Next(
                ResyncView::Listening { saved, attempt },
                ActionView::ReadExact(5),
            ),
            _ => restore(saved, Err(failure_of(event))),
        },
        ResyncView::Listening { saved, attempt } => match event {
            EventView::TimedOut => if attempt < RESYNC_ATTEMPTS {
                StepView::Next(
                    ResyncView::Poking { saved, attempt: (attempt + 1) as u8 },
                    ActionView::Write(poke()),
                )
            } else {
                restore(saved, Err(ErrorView::ResyncExhausted))
            },
            EventView::Data(reply) => if reply == bitbang_magic() {
                restore(saved, Ok(BinModeVSN::One))
            } else {
                restore(saved, Err(ErrorView::ProtocolMismatch(reply)))
            },
            _ => restore(saved, Err(failure_of(event))),
        },
        ResyncView::Restoring { outcome } => match event {
            EventView::TimeoutSet => match outcome {
                Ok(vsn) => StepView::Done(BBIOConn { vsn }),
                Err(error) => StepView::Failed(error),
            },
            _ => StepView::Failed(failure_of(event)),
        },
    }
}

/// The step that ends an attempt.
fn restoring(saved: Timeout, outcome: Result<BinModeVSN, ProtocolError>) -> (step: Step<
    Resync,
    BBIOConn,
>)
    ensures
        step@ == restore(
            saved,
            match outcome {
                Ok(vsn) => Ok(vsn),
                Err(error) => Err(error@),
            },
        ),
{
    Step::Next(Resync::Restoring { outcome }, Action::SetTimeout(saved))
}

/// Whether `reply` is the bitbang magic.
fn is_bitbang_magic(reply: &Vec<u8>) -> (yes: bool)
    ensures
        yes == (reply@ == bitbang_magic()),
{
    let magic: Vec<u8> = vec![0x42u8, 0x42u8, 0x49u8, 0x4fu8, 0x31u8];
    assert(magic@ =~= bitbang_magic());
    bytes_equal(reply, &magic)
}

impl Resync {
    /// Takes the event of the action that this state waited for and decides
    /// what comes next.
    pub fn step(self, event: Event) -> (step: Step<Resync, BBIOConn>)
        ensures
            step@ == resync_step(self@, event@),
    {
        match self {
            Resync::Escaping => match event {
                Event::Written => Step::Next(Resync::Draining, Action::Drain),
                other => Step::Failed(other.failure()),
            },
            Resync::Draining => match event {
                Event::Drained | Event::TimedOut => Step::Next(
                    Resync::Querying,
                    Action::QueryTimeout,
                ),
                other => Step::Failed(other.failure()),
            },
            Resync::Querying => match event {
                Event::TimeoutIs(saved) => Step::Next(
                    Resync::Shortening { saved },
                    Action::SetTimeout(Timeout::from_millis(ATTEMPT_TIMEOUT_MS)),
                ),
                other => Step::Failed(other.failure()),
            },
            Resync::Shortening { saved } => match event {
                Event::TimeoutSet => {
                    let zero: Vec<u8> = vec![0u8];
                    assert(zero@ =~= poke());
                    Step::Next(Resync::Poking { saved, attempt: 1 }, Action::Write(zero))
                },
                other => Step::Failed(other.failure()),
            },
            Resync::Poking { saved, attempt } => match event {
                Event::Written => Step::Next(
                    Resync::Listening { saved, attempt },
                    Action::ReadExact(5),
                ),
                other => restoring(saved, Err(other.failure())),
            },
            Resync::Listening { saved, attempt } => match event {
                Event::TimedOut => {
                    if attempt < RESYNC_ATTEMPTS {
                        let zero: Vec<u8> = vec![0u8];
                        assert(zero@ =~= poke());
                        Step::Next(
                            Resync::Poking { saved, attempt: attempt + 1 },
                            Action::Write(zero),
                        )
                    } else {
                        restoring(saved, Err(ProtocolError::ResyncExhausted))
                    }
                },
                Event::Data(reply) => {
                    if is_bitbang_magic(&reply) {
                        restoring(saved, Ok(BinModeVSN::One))
                    } else {
                        restoring(saved, Err(ProtocolError::ProtocolMismatch(reply)))
                    }
                },
                other => restoring(saved, Err(other.failure())),
            },
            Resync::Restoring { outcome } => match event {
                Event::TimeoutSet => match outcome {
                    Ok(vsn) => Step::Done(BBIOConn::new(vsn)),
                    Err(error) => Step::Failed(error),
                },
                other => Step::Failed(other.failure()),
            },
        }
    }
}

/// The read timeout while the device's banner is read, in milliseconds.
pub const BANNER_TIMEOUT_MS: u32 = 100;

/// How long the banner is read for at most, in milliseconds.
pub const BANNER_DEADLINE_MS: u64 = 5000;

/// The read timeout while the banner is read.
pub open spec fn banner_timeout() -> Timeout {
    Timeout { secs: 0, nanos: 100_000_000 }
}

/// Where the reading of the device's banner stands. Each state names the
/// action whose event it waits for.
#[derive(Debug, PartialEq, Eq)]
pub enum BannerRead {
    /// The link's own timeout is being asked for.
    Querying,
    /// The reading timeout is being set; `saved` is the link's own.
    Shortening { saved: Timeout },
    /// The escape sequence is being written.
    Escaping { saved: Timeout },
    /// One more byte is being read; `raw` is what was read so far.
    Reading { saved: Timeout, raw: Vec<u8> },
    /// The link's own timeout is being put back; `outcome` is decided.
    Restoring { outcome: Result<Vec<u8>, ProtocolError> },
}

/// A `BannerRead` whose bytes are mathematical sequences.
pub enum BannerReadView {
    Querying,
    Shortening { saved: Timeout },
    Escaping { saved: Timeout },
    Reading { saved: Timeout, raw: Seq<u8> },
    Restoring { outcome: Result<Seq<u8>, ErrorView> },
}

impl View for BannerRead {
    type V = BannerReadView;

    open spec fn view(&self) -> BannerReadView {
        match *self {
            BannerRead::Querying => BannerReadView::Querying,
            BannerRead::Shortening { saved } => BannerReadView::Shortening { saved },
            BannerRead::Escaping { saved } => BannerReadView::Escaping { saved },
            BannerRead::Reading { saved, raw } => BannerReadView::Reading { saved, raw: raw@ },
            BannerRead::Restoring { outcome } => BannerReadView::Restoring {
                outcome: match outcome {
                    Ok(raw) => Ok(raw@),
                    Err(error) => Err(error@),
                },
            },
        }
    }
}

/// The step that ends the reading: the link's own timeout is put back
/// before `outcome` is reported.
pub open spec fn banner_restore(saved: Timeout, outcome: Result<Seq<u8>, ErrorView>) -> StepView<
    BannerReadView,
    Seq<char>,
> {
    StepView::Next(BannerReadView::Restoring { outcome }, ActionView::SetTimeout(saved))
}

/// The step after a byte, or none, was added to `raw`: one more byte is
/// read, unless the deadline has passed.
pub open spec fn banner_read_on(saved: Timeout, raw: Seq<u8>, elapsed_ms: u64) -> StepView<
    BannerReadView,
    Seq<char>,
> {
    if elapsed_ms > BANNER_DEADLINE_MS {
        banner_restore(saved, Ok(raw))
    } else {
        StepView::Next(BannerReadView::Reading { saved, raw }, ActionView::ReadExact(1))
    }
}

/// The reading of the banner as a transition function; `elapsed_ms` is the
/// time since the escape sequence was written.
///
/// The link takes a short timeout, the escape sequence is written, and the
/// device's output is read byte by byte until a read times out or the
/// deadline has passed. An interrupted read is made again. Once bytes are
/// being read, whatever ends the reading puts the link's own timeout back
/// first. The result is the banner in what was read.
pub open spec fn banner_step(state: BannerReadView, event: EventView, elapsed_ms: u64) -> StepView<
    BannerReadView,
    Seq<char>,
> {
    match state {
        BannerReadView::Querying => match event {
            EventView::TimeoutIs(saved) => StepView::Next(
                BannerReadView::Shortening { saved },
                ActionView::SetTimeout(banner_timeout()),
            ),
            _ => StepView::Failed(failure_of(event)),
        },
        BannerReadView::Shortening { saved } => match event {
            EventView::TimeoutSet => StepView::Next(
                BannerReadView::Escaping { saved },
                ActionView::Write(escape_sequence()),
            ),
            _ => StepView::Failed(failure_of(event)),
        },
        BannerReadView::Escaping { saved } => match event {
            EventView::Written => banner_read_on(saved, Seq::empty(), elapsed_ms),
            _ => StepView::Failed(failure_of(event)),
        },
        BannerReadView::Reading { saved, raw } => match event {
            EventView::Data(bytes) => banner_read_on(saved, raw + bytes, elapsed_ms),
            EventView::Interrupted => banner_read_on(saved, raw, elapsed_ms),
            EventView::TimedOut => banner_restore(saved, Ok(raw)),
            _ => banner_restore(saved, Err(failure_of(event))),
        },
        BannerReadView::Restoring { outcome } => match event {
            EventView::TimeoutSet => match outcome {
                Ok(raw) => StepView::Done(banner_text(raw)),
                Err(error) => StepView::Failed(error),
            },
            _ => StepView::Failed(failure_of(event)),
        },
    }
}

/// The step that ends the reading.
fn banner_restoring(saved: Timeout, outcome: Result<Vec<u8>, ProtocolError>) -> (step: Step<
    BannerRead,
    Vec<char>,
>)
    ensures
        step@ == banner_restore(
            saved,
            match outcome {
                Ok(raw) => Ok(raw@),
                Err(error) => Err(error@),
            },
        ),
{
    Step::Next(BannerRead::Restoring { outcome }, Action::SetTimeout(saved))
}

/// The step after a byte, or none, was added to `raw`.
fn banner_reading_on(saved: Timeout, raw: Vec<u8>, elapsed_ms: u64) -> (step: Step<
    BannerRead,
    Vec<char>,
>)
    ensures
        step@ == banner_read_on(saved, raw@, elapsed_ms),
{
    if elapsed_ms > BANNER_DEADLINE_MS {
        banner_restoring(saved, Ok(raw))
    } else {
        Step::Next(BannerRead::Reading { saved, raw }, Action::ReadExact(1))
    }
}

/// The escape sequence.
fn escape_bytes() -> (bytes: Vec<u8>)
    ensures
        bytes@ == escape_sequence(),
{
    let bytes: Vec<u8> = vec![
        10u8, 10u8, 10u8, 10u8, 10u8, 10u8, 10u8, 10u8, 10u8, 10u8, 0x23u8, 10u8,
    ];
    assert(bytes@ =~= escape_sequence());
    bytes
}

impl BannerRead {
    /// Takes the event of the action that this state waited for, and the
    /// time since the escape sequence was written, and decides what comes
    /// next.
    pub fn step(self, event: Event, elapsed_ms: u64) -> (step: Step<BannerRead, Vec<char>>)
        ensures
            step@ == banner_step(self@, event@, elapsed_ms),
    {
        match self {
            BannerRead::Querying => match event {
                Event::TimeoutIs(saved) => Step::Next(
                    BannerRead::Shortening { saved },
                    Action::SetTimeout(Timeout::from_millis(BANNER_TIMEOUT_MS)),
                ),
                other => Step::Failed(other.failure()),
            },
            BannerRead::Shortening { saved } => match event {
                Event::TimeoutSet => Step::Next(
                    BannerRead::Escaping { saved },
                    Action::Write(escape_bytes()),
                ),
                other => Step::Failed(other.failure()),
            },
            BannerRead::Escaping { saved } => match event {
                Event::Written => {
                    let raw: Vec<u8> = Vec::new();
                    assert(raw@ =~= Seq::<u8>::empty());
                    banner_reading_on(saved, raw, elapsed_ms)
                },
                other => Step::Failed(other.failure()),
            },
            BannerRead::Reading { saved, raw } => match event {
                Event::Data(bytes) => {
                    let mut raw = raw;
                    append_bytes(&mut raw, &bytes);
                    banner_reading_on(saved, raw, elapsed_ms)
                },
                Event::Interrupted => banner_reading_on(saved, raw, elapsed_ms),
                Event::TimedOut => banner_restoring(saved, Ok(raw)),
                other => banner_restoring(saved, Err(other.failure())),
            },
            BannerRead::Restoring { outcome } => match event {
                Event::TimeoutSet => match outcome {
                    Ok(raw) => Step::Done(clean_banner(&raw)),
                    Err(error) => Step::Failed(error),
                },
                other => Step::Failed(other.failure()),
            },
        }
    }
}

/// A session with a device whose state is not known: it may sit at its
/// terminal prompt, inside a menu, or in any binary mode.
#[derive(Debug, PartialEq, Eq, Structural)]
pub struct BusPirate {}

impl BusPirate {
    /// A session with a device of which nothing is known yet.
    pub fn new() -> Self {
        Self {  }
    }

    /// Begins the reading of what the device says of itself after a reset:
    /// the first action is the question for the link's timeout.
    pub fn read_vsn(&self) -> (begun: (BannerRead, Action))
        ensures
            begun.0@ == BannerReadView::Querying,
            begun.1@ == ActionView::QueryTimeout,
    {
        (BannerRead::Querying, Action::QueryTimeout)
    }

    /// Begins the resynchronisation that forces the device into binary
    /// bitbang mode. The session is used up; the first action is the write
    /// of the escape sequence.
    pub fn enter_bio_mode(self) -> (begun: (Resync, Action))
        ensures
            begun.0@ == ResyncView::Escaping,
            begun.1@ == ActionView::Write(escape_sequence()),
    {
        (Resync::Escaping, Action::Write(escape_bytes()))
    }
}

} // verus!
