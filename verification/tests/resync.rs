use ruspirate::bbio::{BBIOConn, BinModeVSN, Mode, ModeEntry, Session};
use ruspirate::error::ProtocolError;
use ruspirate::i2c::{Exchange, I2CConn, Message, Reply};
use ruspirate::link::{Action, Event, Step, Timeout};
use ruspirate::pirate::{BusPirate, Resync};

/// A device that answers reads from a script, and records what it is asked.
struct Script {
    /// What each read in turn returns: `None` for a timeout.
    reads: Vec<Option<Vec<u8>>>,
    next_read: usize,
    timeout: Timeout,
    actions: Vec<Action>,
}

fn script(reads: Vec<Option<Vec<u8>>>) -> Script {
    Script {
        reads,
        next_read: 0,
        timeout: Timeout { secs: 1, nanos: 500 },
        actions: Vec::new(),
    }
}

fn perform(device: &mut Script, action: Action) -> Event {
    device.actions.push(action.clone());
    match action {
        Action::Write(_) => Event::Written,
        Action::Drain => Event::TimedOut,
        Action::QueryTimeout => Event::TimeoutIs(device.timeout),
        Action::SetTimeout(timeout) => {
            device.timeout = timeout;
            Event::TimeoutSet
        }
        Action::ReadExact(_) => {
            let reply = device.reads.get(device.next_read).cloned().unwrap_or(None);
            device.next_read += 1;
            match reply {
                Some(bytes) => Event::Data(bytes),
                None => Event::TimedOut,
            }
        }
    }
}

fn resync(device: &mut Script) -> Result<BBIOConn, ProtocolError> {
    let (mut state, mut action) = BusPirate::new().enter_bio_mode();
    loop {
        let event = perform(device, action);
        match state.step(event) {
            Step::Next(next, then) => {
                state = next;
                action = then;
            }
            Step::Done(conn) => return Ok(conn),
            Step::Failed(error) => return Err(error),
        }
    }
}

fn enter(device: &mut Script, mode: Mode) -> Result<Session, ProtocolError> {
    let (mut state, mut action) = BBIOConn::new(BinModeVSN::One).enter_mode(mode);
    loop {
        let event = perform(device, action);
        match state.step(event) {
            Step::Next(next, then) => {
                state = next;
                action = then;
            }
            Step::Done(session) => return Ok(session),
            Step::Failed(error) => return Err(error),
        }
    }
}

fn exchange(device: &mut Script, msg: Message) -> Result<Reply, ProtocolError> {
    let (mut state, mut action) = I2CConn::new().command(msg)?;
    loop {
        let event = perform(device, action);
        match state.step(event) {
            Step::Next(next, then) => {
                state = next;
                action = then;
            }
            Step::Done(reply) => return Ok(reply),
            Step::Failed(error) => return Err(error),
        }
    }
}

fn pokes(device: &Script) -> usize {
    device.actions.iter().filter(|a| **a == Action::Write(vec![0x00])).count()
}

fn silent_then(k: usize, reply: &[u8]) -> Vec<Option<Vec<u8>>> {
    let mut reads: Vec<Option<Vec<u8>>> = vec![None; k - 1];
    reads.push(Some(reply.to_vec()));
    reads
}

#[test]
fn resync_begins_with_the_escape_sequence() {
    let (state, action) = BusPirate::new().enter_bio_mode();
    assert_eq!(state, Resync::Escaping);
    assert_eq!(action, Action::Write(b"\n\n\n\n\n\n\n\n\n\n#\n".to_vec()));
}

#[test]
fn resync_enters_at_each_attempt() {
    for k in 1..=40 {
        let mut device = script(silent_then(k, b"BBIO1"));
        assert_eq!(resync(&mut device), Ok(BBIOConn { vsn: BinModeVSN::One }));
        assert_eq!(pokes(&device), k);
        assert_eq!(device.next_read, k);
        assert_eq!(device.timeout, Timeout { secs: 1, nanos: 500 });
    }
}

#[test]
fn resync_actions_when_answered_at_once() {
    let mut device = script(silent_then(1, b"BBIO1"));
    assert!(resync(&mut device).is_ok());
    assert_eq!(
        device.actions,
        vec![
            Action::Write(b"\n\n\n\n\n\n\n\n\n\n#\n".to_vec()),
            Action::Drain,
            Action::QueryTimeout,
            Action::SetTimeout(Timeout { secs: 0, nanos: 20_000_000 }),
            Action::Write(vec![0x00]),
            Action::ReadExact(5),
            Action::SetTimeout(Timeout { secs: 1, nanos: 500 }),
        ]
    );
}

#[test]
fn resync_gives_up_after_forty_attempts() {
    let mut device = script(vec![]);
    assert_eq!(resync(&mut device), Err(ProtocolError::ResyncExhausted));
    assert_eq!(pokes(&device), 40);
    assert_eq!(device.next_read, 40);
    assert_eq!(device.timeout, Timeout { secs: 1, nanos: 500 });
    assert_eq!(device.actions.last(), Some(&Action::SetTimeout(Timeout { secs: 1, nanos: 500 })));
}

#[test]
fn resync_does_not_see_an_answer_to_a_forty_first_attempt() {
    let mut device = script(silent_then(41, b"BBIO1"));
    assert_eq!(resync(&mut device), Err(ProtocolError::ResyncExhausted));
    assert_eq!(pokes(&device), 40);
}

#[test]
fn resync_stops_at_a_wrong_answer() {
    for k in [1usize, 2, 17, 40] {
        let mut device = script(silent_then(k, b"BBIO2"));
        assert_eq!(
            resync(&mut device),
            Err(ProtocolError::ProtocolMismatch(b"BBIO2".to_vec()))
        );
        assert_eq!(pokes(&device), k);
        assert_eq!(device.next_read, k);
        assert_eq!(device.timeout, Timeout { secs: 1, nanos: 500 });
    }
}

#[test]
fn resync_reports_io_failures() {
    assert_eq!(Resync::Escaping.step(Event::Failed), Step::Failed(ProtocolError::IOError));
    assert_eq!(Resync::Draining.step(Event::Failed), Step::Failed(ProtocolError::IOError));
    let saved = Timeout { secs: 3, nanos: 0 };
    assert_eq!(
        Resync::Shortening { saved }.step(Event::Failed),
        Step::Failed(ProtocolError::IOError)
    );
    assert_eq!(
        Resync::Poking { saved, attempt: 3 }.step(Event::Failed),
        Step::Next(
            Resync::Restoring { outcome: Err(ProtocolError::IOError) },
            Action::SetTimeout(saved)
        )
    );
    assert_eq!(
        Resync::Listening { saved, attempt: 3 }.step(Event::Failed),
        Step::Next(
            Resync::Restoring { outcome: Err(ProtocolError::IOError) },
            Action::SetTimeout(saved)
        )
    );
    assert_eq!(
        Resync::Restoring { outcome: Err(ProtocolError::IOError) }.step(Event::TimeoutSet),
        Step::Failed(ProtocolError::IOError)
    );
    assert_eq!(
        Resync::Restoring { outcome: Ok(BinModeVSN::One) }.step(Event::Failed),
        Step::Failed(ProtocolError::IOError)
    );
}

#[test]
fn resync_drain_ends_on_timeout_or_end_of_stream() {
    assert_eq!(
        Resync::Draining.step(Event::TimedOut),
        Step::Next(Resync::Querying, Action::QueryTimeout)
    );
    assert_eq!(
        Resync::Draining.step(Event::Drained),
        Step::Next(Resync::Querying, Action::QueryTimeout)
    );
}

#[test]
fn resync_refuses_events_out_of_order() {
    assert_eq!(
        Resync::Escaping.step(Event::Data(vec![1])),
        Step::Failed(ProtocolError::OutOfOrder)
    );
    assert_eq!(Resync::Querying.step(Event::Written), Step::Failed(ProtocolError::OutOfOrder));
    assert_eq!(Resync::Escaping.step(Event::TimedOut), Step::Failed(ProtocolError::TimedOut));
    let saved = Timeout { secs: 0, nanos: 7 };
    assert_eq!(
        Resync::Listening { saved, attempt: 1 }.step(Event::Written),
        Step::Next(
            Resync::Restoring { outcome: Err(ProtocolError::OutOfOrder) },
            Action::SetTimeout(saved)
        )
    );
}

#[test]
fn attempt_timeout_is_twenty_milliseconds() {
    assert_eq!(Timeout::from_millis(20), Timeout { secs: 0, nanos: 20_000_000 });
    assert_eq!(Timeout::from_millis(0), Timeout { secs: 0, nanos: 0 });
    assert_eq!(Timeout::from_millis(999), Timeout { secs: 0, nanos: 999_000_000 });
}

#[test]
fn i2c_entry_sends_one_byte_and_wants_the_magic() {
    let (state, action) = BBIOConn::new(BinModeVSN::One).enter_i2c_mode();
    assert_eq!(state, ModeEntry::Sending { mode: Mode::I2C });
    assert_eq!(action, Action::Write(vec![0x02]));
    let mut device = script(vec![Some(b"I2C1".to_vec())]);
    assert_eq!(enter(&mut device, Mode::I2C), Ok(Session::I2C(I2CConn::new())));
    assert_eq!(device.actions, vec![Action::Write(vec![0x02]), Action::ReadExact(4)]);
}

#[test]
fn i2c_entry_fails_on_any_other_four_bytes() {
    for wrong in [b"I2C2", b"SPI1", b"BBIO", b"\0\0\0\0"] {
        let mut device = script(vec![Some(wrong.to_vec())]);
        assert_eq!(
            enter(&mut device, Mode::I2C),
            Err(ProtocolError::ProtocolMismatch(wrong.to_vec()))
        );
        assert_eq!(device.next_read, 1);
    }
}

#[test]
fn every_mode_is_entered_by_its_byte_and_magic() {
    let table: [(Mode, u8, &[u8]); 5] = [
        (Mode::SPI, 0x01, b"SPI1"),
        (Mode::I2C, 0x02, b"I2C1"),
        (Mode::UART, 0x03, b"ART1"),
        (Mode::OneWire, 0x04, b"1W01"),
        (Mode::RawWire, 0x05, b"RAW1"),
    ];
    for (mode, byte, magic) in table {
        let mut device = script(vec![Some(magic.to_vec())]);
        assert_eq!(enter(&mut device, mode).map(|session| session.mode()), Ok(mode));
        assert_eq!(device.actions, vec![Action::Write(vec![byte]), Action::ReadExact(4)]);
    }
}

#[test]
fn mode_entry_is_not_tried_again() {
    let mut device = script(vec![None, Some(b"I2C1".to_vec())]);
    assert_eq!(enter(&mut device, Mode::I2C), Err(ProtocolError::TimedOut));
    assert_eq!(device.next_read, 1);
    assert_eq!(
        ModeEntry::Sending { mode: Mode::SPI }.step(Event::Failed),
        Step::Failed(ProtocolError::IOError)
    );
    assert_eq!(
        ModeEntry::Receiving { mode: Mode::SPI }.step(Event::Failed),
        Step::Failed(ProtocolError::IOError)
    );
    assert_eq!(
        ModeEntry::Receiving { mode: Mode::SPI }.step(Event::Written),
        Step::Failed(ProtocolError::OutOfOrder)
    );
}

#[test]
fn jtag_entry_is_only_sent() {
    assert_eq!(BBIOConn::new(BinModeVSN::One).enter_jtag_mode(), Action::Write(vec![0x06]));
}

#[test]
fn exchange_of_a_confirmed_command() {
    let mut device = script(vec![Some(vec![0x01])]);
    assert_eq!(exchange(&mut device, Message::StartBit), Ok(Reply::Confirmed));
    assert_eq!(device.actions, vec![Action::Write(vec![0x02]), Action::ReadExact(1)]);
    let mut device = script(vec![Some(b"BBIO1".to_vec())]);
    assert_eq!(exchange(&mut device, Message::ExitToBBIO), Ok(Reply::Confirmed));
    assert_eq!(device.actions, vec![Action::Write(vec![0x00]), Action::ReadExact(5)]);
}

#[test]
fn exchange_of_a_bulk_write() {
    let mut device = script(vec![Some(vec![0x01, 0x00, 0x01])]);
    assert_eq!(
        exchange(&mut device, Message::BulkWrite(vec![0xa0, 0x42])),
        Ok(Reply::Acks(vec![true, false]))
    );
    assert_eq!(
        device.actions,
        vec![Action::Write(vec![0x11, 0xa0, 0x42]), Action::ReadExact(3)]
    );
}

#[test]
fn exchange_of_a_write_then_read() {
    let data: Vec<u8> = (0..257).map(|i| (i * 3 % 256) as u8).collect();
    let mut device = script(vec![Some(vec![0x01]), Some(data.clone())]);
    assert_eq!(
        exchange(&mut device, Message::WriteThenRead(vec![0xa1], 257)),
        Ok(Reply::Data(data))
    );
    assert_eq!(
        device.actions,
        vec![
            Action::Write(vec![0x08, 0x00, 0x01, 0x01, 0x01, 0xa1]),
            Action::ReadExact(1),
            Action::ReadExact(257),
        ]
    );
}

#[test]
fn exchange_of_a_write_then_read_that_is_not_acknowledged() {
    let mut device = script(vec![Some(vec![0x00]), Some(vec![1, 2, 3])]);
    assert_eq!(
        exchange(&mut device, Message::WriteThenRead(vec![0xa1], 3)),
        Ok(Reply::Nacked)
    );
    assert_eq!(device.next_read, 1);
    let mut device = script(vec![Some(vec![0x07])]);
    assert_eq!(
        exchange(&mut device, Message::WriteThenRead(vec![0xa1], 3)),
        Err(ProtocolError::ProtocolMismatch(vec![0x07]))
    );
    let mut device = script(vec![Some(vec![0x01]), Some(vec![1, 2])]);
    assert_eq!(
        exchange(&mut device, Message::WriteThenRead(vec![0xa1], 3)),
        Err(ProtocolError::ProtocolMismatch(vec![0x01, 1, 2]))
    );
}

#[test]
fn exchange_of_a_write_then_read_of_nothing() {
    let mut device = script(vec![Some(vec![0x01])]);
    assert_eq!(
        exchange(&mut device, Message::WriteThenRead(vec![0xa0, 0x00], 0)),
        Ok(Reply::Data(vec![]))
    );
    assert_eq!(device.next_read, 1);
}

#[test]
fn exchange_refuses_bad_arguments_before_anything_is_sent() {
    let mut device = script(vec![]);
    assert_eq!(
        exchange(&mut device, Message::BulkWrite(vec![])),
        Err(ProtocolError::InvalidArgument)
    );
    assert_eq!(
        exchange(&mut device, Message::WriteThenRead(vec![], 5000)),
        Err(ProtocolError::InvalidArgument)
    );
    assert!(device.actions.is_empty());
    assert_eq!(
        Exchange::Sending { msg: Message::BulkWrite(vec![0; 17]) }.step(Event::Written),
        Step::Failed(ProtocolError::InvalidArgument)
    );
}

#[test]
fn exchange_of_the_sniffer_reads_nothing() {
    let mut device = script(vec![Some(vec![1])]);
    assert_eq!(exchange(&mut device, Message::StartBusSniffer), Ok(Reply::Unverified));
    assert_eq!(device.actions, vec![Action::Write(vec![0x0f])]);
}

#[test]
fn exchange_times_out_and_fails() {
    let mut device = script(vec![None]);
    assert_eq!(exchange(&mut device, Message::ReadByte), Err(ProtocolError::TimedOut));
    assert_eq!(
        Exchange::Receiving { msg: Message::ReadByte }.step(Event::Failed),
        Step::Failed(ProtocolError::IOError)
    );
    assert_eq!(
        Exchange::ReceivingData { msg: Message::WriteThenRead(vec![], 2) }.step(Event::Drained),
        Step::Failed(ProtocolError::OutOfOrder)
    );
    let mut device = script(vec![Some(vec![0x33])]);
    assert_eq!(exchange(&mut device, Message::ReadByte), Ok(Reply::Byte(0x33)));
}
