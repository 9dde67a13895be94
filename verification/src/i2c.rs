//! The binary I2C mode: its commands, their encoding, the decoding of their
//! replies, and the exchange of one command with the device.

use vstd::prelude::*;
use crate::error::{ErrorView, ProtocolError};
use crate::link::{
    append_bytes, bytes_equal, failure_of, Action, ActionView, Event, EventView, Step, StepView,
};

verus! {

/// The most data bytes that one bulk write carries.
pub const BULK_WRITE_MAX: usize = 16;

/// The most bytes that a write-then-read writes, and the most it reads.
pub const WRITE_THEN_READ_MAX: usize = 4096;

/// The rail that the pull-up resistors are connected to.
#[derive(Debug, Clone, Copy, PartialEq, Eq, Structural)]
pub enum PullUp {
    V5,
    V3_3,
    /// Connected to neither rail.
    Off,
}

/// The speed of the I2C bus.
#[derive(Debug, Clone, Copy, PartialEq, Eq, Structural)]
pub enum Speed {
    Hz400000,
    Hz100000,
    Hz50000,
    Hz5000,
}

/// A command of the binary I2C mode.
#[derive(Debug, Clone, PartialEq, Eq)]
pub enum Message {
    ExitToBBIO,
    I2CVSN,
    StartBit,
    StopBit,
    ReadByte,
    AckBit,
    NackBit,
    StartBusSniffer,
    ExitBusSniffer,
    /// Writes these bytes, 1 to 16 of them, to the bus.
    BulkWrite(Vec<u8>),
    /// Switches the power supply, the pull-ups, the AUX pin and the CS pin.
    Configure(bool, bool, bool, bool),
    PullUpSelect(PullUp),
    SetSpeed(Speed),
    /// Writes these bytes, then reads this many, each up to 4096.
    WriteThenRead(Vec<u8>, u16),
}

/// A `Message` with its payload as a mathematical sequence.
pub enum MessageView {
    ExitToBBIO,
    I2CVSN,
    StartBit,
    StopBit,
    ReadByte,
    AckBit,
    NackBit,
    StartBusSniffer,
    ExitBusSniffer,
    BulkWrite(Seq<u8>),
    Configure(bool, bool, bool, bool),
    PullUpSelect(PullUp),
    SetSpeed(Speed),
    WriteThenRead(Seq<u8>, u16),
}

impl View for Message {
    type V = MessageView;

    open spec fn view(&self) -> MessageView {
        match *self {
            Message::ExitToBBIO => MessageView::ExitToBBIO,
            Message::I2CVSN => MessageView::I2CVSN,
            Message::StartBit => MessageView::StartBit,
            Message::StopBit => MessageView::StopBit,
            Message::ReadByte => MessageView::ReadByte,
            Message::AckBit => MessageView::AckBit,
            Message::NackBit => MessageView::NackBit,
            Message::StartBusSniffer => MessageView::StartBusSniffer,
            Message::ExitBusSniffer => MessageView::ExitBusSniffer,
            Message::BulkWrite(bytes) => MessageView::BulkWrite(bytes@),
            Message::Configure(power, pullups, aux, cs) => MessageView::Configure(
                power,
                pullups,
                aux,
                cs,
            ),
            Message::PullUpSelect(rail) => MessageView::PullUpSelect(rail),
            Message::SetSpeed(speed) => MessageView::SetSpeed(speed),
            Message::WriteThenRead(bytes, count) => MessageView::WriteThenRead(bytes@, count),
        }
    }
}

impl Speed {
    /// The two bits that select this speed.
    pub open spec fn code(self) -> u8 {
        match self {
            Speed::Hz400000 => 3,
            Speed::Hz100000 => 2,
            Speed::Hz50000 => 1,
            Speed::Hz5000 => 0,
        }
    }

    /// The speed that a command byte selects, where the byte is a speed
    /// command: `0b011000xx`.
    pub open spec fn of_command(byte: u8) -> Option<Speed> {
        if byte == 0x63 {
            Some(Speed::Hz400000)
        } else if byte == 0x62 {
            Some(Speed::Hz100000)
        } else if byte == 0x61 {
            Some(Speed::Hz50000)
        } else if byte == 0x60 {
            Some(Speed::Hz5000)
        } else {
            None
        }
    }

    /// The two bits that select this speed.
    pub fn bits(&self) -> (bits: u8)
        ensures
            bits == self.code(),
    {
        match self {
            Speed::Hz400000 => 0b11,
            Speed::Hz100000 => 0b10,
            Speed::Hz50000 => 0b01,
            Speed::Hz5000 => 0b00,
        }
    }

    /// Reads the speed back out of a speed command's byte.
    pub fn from_command(byte: u8) -> (speed: Option<Speed>)
        ensures
            speed == Speed::of_command(byte),
    {
        if byte == 0b0110_0011 {
            Some(Speed::Hz400000)
        } else if byte == 0b0110_0010 {
            Some(Speed::Hz100000)
        } else if byte == 0b0110_0001 {
            Some(Speed::Hz50000)
        } else if byte == 0b0110_0000 {
            Some(Speed::Hz5000)
        } else {
            None
        }
    }
}

impl PullUp {
    /// The two bits `xy` of the pull-up command: `x` for 5 V, `y` for 3.3 V.
    pub open spec fn code(self) -> u8 {
        match self {
            PullUp::V5 => 2,
            PullUp::V3_3 => 1,
            PullUp::Off => 0,
        }
    }

    /// The two bits that select this rail.
    pub fn bits(&self) -> (bits: u8)
        ensures
            bits == self.code(),
    {
        match self {
            PullUp::V5 => 0b10,
            PullUp::V3_3 => 0b01,
            PullUp::Off => 0b00,
        }
    }
}

/// One bit of a command byte: `weight` where the flag is set.
pub open spec fn flag(set: bool, weight: u8) -> u8 {
    if set {
        weight
    } else {
        0
    }
}

fn flag_bit(set: bool, weight: u8) -> (bit: u8)
    ensures
        bit == flag(set, weight),
{
    if set {
        weight
    } else {
        0
    }
}

/// The header of a bulk write of `len` bytes, for `len` from 1 to 16: the
/// high nibble `0001`, and `len - 1` in the low nibble.
pub open spec fn bulk_header(len: nat) -> u8 {
    (0x10 + (len - 1)) as u8
}

/// The byte of the peripheral command `0100wxyz`: `w` the power supply, `x`
/// the pull-ups, `y` the AUX pin, `z` the CS pin.
pub open spec fn configure_byte(power: bool, pullups: bool, aux: bool, cs: bool) -> u8 {
    (0x40 + flag(power, 8) + flag(pullups, 4) + flag(aux, 2) + flag(cs, 1)) as u8
}

/// A count from 0 to 65535 as two bytes, the high one first.
pub open spec fn big_endian(count: nat) -> Seq<u8> {
    seq![(count / 256) as u8, (count % 256) as u8]
}

impl MessageView {
    /// Whether the command's parameters are within their bounds: a bulk
    /// write carries 1 to 16 bytes, a write-then-read writes at most 4096
    /// bytes and reads at most 4096.
    pub open spec fn in_bounds(self) -> bool {
        match self {
            MessageView::BulkWrite(bytes) => 1 <= bytes.len() <= BULK_WRITE_MAX,
            MessageView::WriteThenRead(bytes, count) => bytes.len() <= WRITE_THEN_READ_MAX
                && count <= WRITE_THEN_READ_MAX,
            _ => true,
        }
    }

    /// The bytes that put the command on the wire, or `InvalidArgument`
    /// where its parameters are out of bounds.
    pub open spec fn encoding(self) -> Result<Seq<u8>, ErrorView> {
        match self {
            MessageView::ExitToBBIO => Ok(seq![0x00u8]),
            MessageView::I2CVSN => Ok(seq![0x01u8]),
            MessageView::StartBit => Ok(seq![0x02u8]),
            MessageView::StopBit => Ok(seq![0x03u8]),
            MessageView::ReadByte => Ok(seq![0x04u8]),
            MessageView::AckBit => Ok(seq![0x06u8]),
            MessageView::NackBit => Ok(seq![0x07u8]),
            MessageView::StartBusSniffer => Ok(seq![0x0fu8]),
            MessageView::ExitBusSniffer => Ok(seq![0x0fu8]),
            MessageView::BulkWrite(bytes) => if self.in_bounds() {
                Ok(seq![bulk_header(bytes.len())] + bytes)
            } else {
                Err(ErrorView::InvalidArgument)
            },
            MessageView::Configure(power, pullups, aux, cs) => Ok(
                seq![configure_byte(power, pullups, aux, cs)],
            ),
            MessageView::PullUpSelect(rail) => Ok(seq![(0x50 + rail.code()) as u8]),
            MessageView::SetSpeed(speed) => Ok(seq![(0x60 + speed.code()) as u8]),
            MessageView::WriteThenRead(bytes, count) => if self.in_bounds() {
                Ok(seq![0x08u8] + big_endian(bytes.len()) + big_endian(count as nat) + bytes)
            } else {
                Err(ErrorView::InvalidArgument)
            },
        }
    }

    /// The literal reply that confirms the command, for the commands that
    /// have one: `BBIO1` for the exit to bitbang mode, `I2C1` for the
    /// version, and the single byte `0x01` for the others.
    pub open spec fn confirmation(self) -> Option<Seq<u8>> {
        match self {
            MessageView::ExitToBBIO => Some(seq![0x42u8, 0x42u8, 0x49u8, 0x4fu8, 0x31u8]),
            MessageView::I2CVSN => Some(seq![0x49u8, 0x32u8, 0x43u8, 0x31u8]),
            MessageView::StartBit
            | MessageView::StopBit
            | MessageView::AckBit
            | MessageView::NackBit
            | MessageView::ExitBusSniffer
            | MessageView::Configure(_, _, _, _)
            | MessageView::PullUpSelect(_)
            | MessageView::SetSpeed(_) => Some(seq![0x01u8]),
            _ => None,
        }
    }
}

/// The two bytes of a count, the high one first.
fn push_big_endian(out: &mut Vec<u8>, count: usize)
    requires
        count <= 0xffff,
    ensures
        final(out)@ == old(out)@ + big_endian(count as nat),
{
    out.push((count / 256) as u8);
    out.push((count % 256) as u8);
    assert(out@ =~= old(out)@ + big_endian(count as nat));
}

impl Message {
    /// Whether this command's parameters are within their bounds.
    pub fn in_bounds(&self) -> (yes: bool)
        ensures
            yes == self@.in_bounds(),
    {
        match self {
            Message::BulkWrite(bytes) => bytes.len() > 0 && bytes.len() <= BULK_WRITE_MAX,
            Message::WriteThenRead(bytes, count) => bytes.len() <= WRITE_THEN_READ_MAX
                && *count as usize <= WRITE_THEN_READ_MAX,
            _ => true,
        }
    }

    /// The bytes that put this command on the wire. A command whose
    /// parameters are out of bounds has none, and nothing of it is to be
    /// sent.
    pub fn send(&self) -> (encoded: Result<Vec<u8>, ProtocolError>)
        ensures
            match encoded {
                Ok(bytes) => self@.encoding() == Ok::<Seq<u8>, ErrorView>(bytes@),
                Err(error) => self@.encoding() == Err::<Seq<u8>, ErrorView>(error@),
            },
    {
        if !self.in_bounds() {
            return Err(ProtocolError::InvalidArgument);
        }
        let mut buf: Vec<u8> = Vec::new();
        match self {
            Message::ExitToBBIO => buf.push(0b00000000),
            Message::I2CVSN => buf.push(0b00000001),
            Message::StartBit => buf.push(0b00000010),
            Message::StopBit => buf.push(0b00000011),
            Message::ReadByte => buf.push(0b00000100),
            Message::AckBit => buf.push(0b00000110),
            Message::NackBit => buf.push(0b00000111),
            Message::StartBusSniffer => buf.push(0b00001111),
            Message::ExitBusSniffer => buf.push(0b00001111),
            Message::BulkWrite(bytes) => {
                let low: u8 = (bytes.len() - 1) as u8;
                assert(0b0001_0000u8 | (0b0001_1111u8 & low) == 0x10 + low) by (bit_vector)
                    requires
                        low < 16,
                ;
                buf.push(0b0001_0000u8 | (0b0001_1111u8 & low));
                append_bytes(&mut buf, bytes);
            },
            Message::Configure(power, pullups, aux, cs) => {
                buf.push(
                    0b0100_0000 + flag_bit(*power, 0b1000) + flag_bit(*pullups, 0b0100) + flag_bit(
                        *aux,
                        0b0010,
                    ) + flag_bit(*cs, 0b0001),
                );
            },
            Message::PullUpSelect(rail) => buf.push(0b0101_0000 + rail.bits()),
            Message::SetSpeed(speed) => buf.push(0b0110_0000 + speed.bits()),
            Message::WriteThenRead(bytes, count) => {
                buf.push(0x08);
                push_big_endian(&mut buf, bytes.len());
                push_big_endian(&mut buf, *count as usize);
                append_bytes(&mut buf, bytes);
            },
        }
        assert(self@.encoding() == Ok::<Seq<u8>, ErrorView>(buf@)) by {
            assert(self@.encoding() is Ok);
            assert(buf@ =~= self@.encoding()->Ok_0);
        }
        Ok(buf)
    }

    /// Whether `expect` has a reply for this command: whether the device
    /// confirms it with a literal reply.
    pub fn has_confirmation(&self) -> (yes: bool)
        ensures
            yes == self@.confirmation().is_some(),
    {
        match self {
            Message::ReadByte
            | Message::StartBusSniffer
            | Message::BulkWrite(_)
            | Message::WriteThenRead(_, _) => false,
            _ => true,
        }
    }

    /// The literal bytes that confirm this command.
    pub fn expect(&self) -> (bytes: Vec<u8>)
        requires
            self@.confirmation().is_some(),
        ensures
            bytes@ == self@.confirmation().unwrap(),
    {
        let bytes: Vec<u8> = match self {
            Message::ExitToBBIO => vec![0x42u8, 0x42u8, 0x49u8, 0x4fu8, 0x31u8],
            Message::I2CVSN => vec![0x49u8, 0x32u8, 0x43u8, 0x31u8],
            _ => vec![0b00000001u8],
        };
        assert(bytes@ =~= self@.confirmation().unwrap());
        bytes
    }
}

/// What the device's reply to a command says.
#[derive(Debug, Clone, PartialEq, Eq)]
pub enum Reply {
    /// The literal confirmation arrived.
    Confirmed,
    /// The byte that was read from the bus; it is yet to be acknowledged.
    Byte(u8),
    /// For each byte of a bulk write, whether the slave acknowledged it.
    Acks(Vec<bool>),
    /// The bytes that a write-then-read has read.
    Data(Vec<u8>),
    /// The slave did not acknowledge the write of a write-then-read, and
    /// nothing was read.
    Nacked,
    /// The command has no reply of a known length; none was read.
    Unverified,
}

/// A `Reply` with its payload as a mathematical sequence.
pub enum ReplyView {
    Confirmed,
    Byte(u8),
    Acks(Seq<bool>),
    Data(Seq<u8>),
    Nacked,
    Unverified,
}

impl View for Reply {
    type V = ReplyView;

    open spec fn view(&self) -> ReplyView {
        match *self {
            Reply::Confirmed => ReplyView::Confirmed,
            Reply::Byte(byte) => ReplyView::Byte(byte),
            Reply::Acks(acks) => ReplyView::Acks(acks@),
            Reply::Data(bytes) => ReplyView::Data(bytes@),
            Reply::Nacked => ReplyView::Nacked,
            Reply::Unverified => ReplyView::Unverified,
        }
    }
}

/// Whether every byte of `reply` after the first is an ACK (`0x00`) or a
/// NACK (`0x01`).
pub open spec fn all_ack_bits(reply: Seq<u8>) -> bool {
    forall|i: int| 1 <= i < reply.len() ==> reply[i] == 0x00u8 || reply[i] == 0x01u8
}

/// The acknowledgements in the reply to a bulk write: one for each byte
/// after the status byte, `true` for an ACK.
pub open spec fn acks_of(reply: Seq<u8>) -> Seq<bool> {
    Seq::new((reply.len() - 1) as nat, |i: int| reply[i + 1] == 0x00u8)
}

impl MessageView {
    /// What the whole reply to the command says, or `ProtocolMismatch` with
    /// the reply where it is not one that the command can have.
    ///
    /// A read returns one byte. A bulk write returns the status `0x01`, then
    /// an ACK or NACK for each byte written. A write-then-read returns the
    /// status `0x00` alone where the slave did not acknowledge, or the
    /// status `0x01` and as many bytes as were asked for. The bus sniffer's
    /// stream is not looked at.
    pub open spec fn decoding(self, reply: Seq<u8>) -> Result<ReplyView, ErrorView> {
        match self {
            MessageView::ReadByte => if reply.len() == 1 {
                Ok(ReplyView::Byte(reply[0]))
            } else {
                Err(ErrorView::ProtocolMismatch(reply))
            },
            MessageView::StartBusSniffer => Ok(ReplyView::Unverified),
            MessageView::BulkWrite(bytes) => if reply.len() == bytes.len() + 1 && reply[0]
                == 0x01u8 && all_ack_bits(reply) {
                Ok(ReplyView::Acks(acks_of(reply)))
            } else {
                Err(ErrorView::ProtocolMismatch(reply))
            },
            MessageView::WriteThenRead(_, count) => if reply == seq![0x00u8] {
                Ok(ReplyView::Nacked)
            } else if reply.len() == count + 1 && reply[0] == 0x01u8 {
                Ok(ReplyView::Data(reply.subrange(1, reply.len() as int)))
            } else {
                Err(ErrorView::ProtocolMismatch(reply))
            },
            _ => if reply == self.confirmation().unwrap() {
                Ok(ReplyView::Confirmed)
            } else {
                Err(ErrorView::ProtocolMismatch(reply))
            },
        }
    }
}

/// The acknowledgements in the reply to a bulk write, or nothing where a
/// byte after the first is neither an ACK nor a NACK.
fn read_acks(reply: &Vec<u8>) -> (acks: Option<Vec<bool>>)
    requires
        reply.len() >= 1,
    ensures
        acks.is_some() == all_ack_bits(reply@),
        acks.is_some() ==> acks.unwrap()@ == acks_of(reply@),
{
    let mut acks: Vec<bool> = Vec::new();
    let mut i: usize = 1;
    while i < reply.len()
        invariant
            1 <= i <= reply.len(),
            acks.len() == i - 1,
            forall|k: int| 1 <= k < i ==> reply@[k] == 0x00u8 || reply@[k] == 0x01u8,
            forall|k: int| 0 <= k < acks.len() ==> acks@[k] == (reply@[k + 1] == 0x00u8),
        decreases reply.len() - i,
    {
        let bit = reply[i];
        if bit != 0x00 && bit != 0x01 {
            return None;
        }
        acks.push(bit == 0x00);
        i += 1;
    }
    assert(acks@ =~= acks_of(reply@));
    Some(acks)
}

/// The bytes of `reply` after the first.
fn after_status(reply: &Vec<u8>) -> (data: Vec<u8>)
    requires
        reply.len() >= 1,
    ensures
        data@ == reply@.subrange(1, reply.len() as int),
{
    let mut data: Vec<u8> = Vec::new();
    let mut i: usize = 1;
    while i < reply.len()
        invariant
            1 <= i <= reply.len(),
            data@ == reply@.subrange(1, i as int),
        decreases reply.len() - i,
    {
        data.push(reply[i]);
        assert(reply@.subrange(1, i + 1) =~= reply@.subrange(1, i as int).push(reply@[i as int]));
        i += 1;
    }
    data
}

impl Message {
    /// Reads the whole reply to this command.
    pub fn decode(&self, reply: Vec<u8>) -> (decoded: Result<Reply, ProtocolError>)
        ensures
            match decoded {
                Ok(value) => self@.decoding(reply@) == Ok::<ReplyView, ErrorView>(value@),
                Err(error) => self@.decoding(reply@) == Err::<ReplyView, ErrorView>(error@),
            },
    {
        match self {
            Message::ReadByte => {
                if reply.len() == 1 {
                    Ok(Reply::Byte(reply[0]))
                } else {
                    Err(ProtocolError::ProtocolMismatch(reply))
                }
            },
            Message::StartBusSniffer => Ok(Reply::Unverified),
            Message::BulkWrite(bytes) => {
                if reply.len() >= 1 && reply.len() - 1 == bytes.len() && reply[0] == 0x01 {
                    match read_acks(&reply) {
                        Some(acks) => Ok(Reply::Acks(acks)),
                        None => Err(ProtocolError::ProtocolMismatch(reply)),
                    }
                } else {
                    Err(ProtocolError::ProtocolMismatch(reply))
                }
            },
            Message::WriteThenRead(_, count) => {
                if reply.len() == 1 && reply[0] == 0x00 {
                    assert(reply@ =~= seq![0x00u8]);
                    Ok(Reply::Nacked)
                } else if reply.len() >= 1 && reply.len() - 1 == *count as usize && reply[0]
                    == 0x01 {
                    Ok(Reply::Data(after_status(&reply)))
                } else {
                    Err(ProtocolError::ProtocolMismatch(reply))
                }
            },
            _ => {
                let good_reply = self.expect();
                if bytes_equal(&reply, &good_reply) {
                    Ok(Reply::Confirmed)
                } else {
                    Err(ProtocolError::ProtocolMismatch(reply))
                }
            },
        }
    }
}

/// Where the exchange of one command stands. Each state names the action
/// whose event it waits for.
#[derive(Debug, PartialEq, Eq)]
pub enum Exchange {
    /// The command's bytes are being written.
    Sending { msg: Message },
    /// The reply is being read, or its status byte where more may follow.
    Receiving { msg: Message },
    /// The bytes that a write-then-read has read are being read, after the
    /// status byte `0x01`.
    ReceivingData { msg: Message },
}

/// An `Exchange` over the view of its command.
pub enum ExchangeView {
    Sending { msg: MessageView },
    Receiving { msg: MessageView },
    ReceivingData { msg: MessageView },
}

impl View for Exchange {
    type V = ExchangeView;

    open spec fn view(&self) -> ExchangeView {
        match *self {
            Exchange::Sending { msg } => ExchangeView::Sending { msg: msg@ },
            Exchange::Receiving { msg } => ExchangeView::Receiving { msg: msg@ },
            Exchange::ReceivingData { msg } => ExchangeView::ReceivingData { msg: msg@ },
        }
    }
}

impl MessageView {
    /// How many bytes are read first once the command is written: the whole
    /// reply where its length is known beforehand, the status byte of a
    /// write-then-read, nothing of the bus sniffer's stream.
    pub open spec fn first_read(self) -> nat {
        match self {
            MessageView::ReadByte => 1,
            MessageView::StartBusSniffer => 0,
            MessageView::BulkWrite(bytes) => bytes.len() + 1,
            MessageView::WriteThenRead(_, _) => 1,
            _ => self.confirmation().unwrap().len(),
        }
    }

    /// Whether, after this first reply, the bytes that a write-then-read has
    /// read are still to come.
    pub open spec fn data_follows(self, reply: Seq<u8>) -> bool {
        self matches MessageView::WriteThenRead(_, count) && count > 0 && reply == seq![0x01u8]
    }
}

/// The end of an exchange, from what its reply says.
pub open spec fn finish(decoded: Result<ReplyView, ErrorView>) -> StepView<
    ExchangeView,
    ReplyView,
> {
    match decoded {
        Ok(reply) => StepView::Done(reply),
        Err(error) => StepView::Failed(error),
    }
}

/// The exchange of one command as a transition function. The command's bytes
/// are written, its reply is read and decoded, once. A state made by hand
/// around a command that is out of bounds ends with `InvalidArgument`. A write-then-read is
/// read in two parts: the status byte, then, where that is `0x01`, the bytes
/// that were asked for.
pub open spec fn exchange_step(state: ExchangeView, event: EventView) -> StepView<
    ExchangeView,
    ReplyView,
> {
    match state {
        ExchangeView::Sending { msg } => match event {
            EventView::Written => if !msg.in_bounds() {
                StepView::Failed(ErrorView::InvalidArgument)
            } else if msg.first_read() == 0 {
                finish(msg.decoding(Seq::empty()))
            } else {
                StepView::Next(
                    ExchangeView::Receiving { msg },
                    ActionView::ReadExact(msg.first_read()),
                )
            },
            _ => StepView::Failed(failure_of(event)),
        },
        ExchangeView::Receiving { msg } => match event {
            EventView::Data(reply) => if msg.data_follows(reply) {
                StepView::Next(
                    ExchangeView::ReceivingData { msg },
                    ActionView::ReadExact(msg->WriteThenRead_1 as nat),
                )
            } else {
                finish(msg.decoding(reply))
            },
            _ => StepView::Failed(failure_of(event)),
        },
        ExchangeView::ReceivingData { msg } => match event {
            EventView::Data(data) => finish(msg.decoding(seq![0x01u8] + data)),
            _ => StepView::Failed(failure_of(event)),
        },
    }
}

/// The end of an exchange, from what its reply says.
fn finished(decoded: Result<Reply, ProtocolError>) -> (step: Step<Exchange, Reply>)
    ensures
        step@ == finish(
            match decoded {
                Ok(reply) => Ok(reply@),
                Err(error) => Err(error@),
            },
        ),
{
    match decoded {
        Ok(reply) => Step::Done(reply),
        Err(error) => Step::Failed(error),
    }
}

impl Message {
    /// How many bytes are read first once this command is written.
    fn first_read_len(&self) -> (len: usize)
        requires
            self@.in_bounds(),
        ensures
            len == self@.first_read(),
    {
        match self {
            Message::ReadByte => 1,
            Message::StartBusSniffer => 0,
            Message::BulkWrite(bytes) => bytes.len() + 1,
            Message::WriteThenRead(_, _) => 1,
            _ => self.expect().len(),
        }
    }
}

impl Exchange {
    /// Takes the event of the action that this state waited for and decides
    /// what comes next.
    pub fn step(self, event: Event) -> (step: Step<Exchange, Reply>)
        ensures
            step@ == exchange_step(self@, event@),
    {
        match self {
            Exchange::Sending { msg } => match event {
                Event::Written => {
                    if !msg.in_bounds() {
                        return Step::Failed(ProtocolError::InvalidArgument);
                    }
                    let len = msg.first_read_len();
                    if len == 0 {
                        let nothing: Vec<u8> = Vec::new();
                        assert(nothing@ =~= Seq::<u8>::empty());
                        finished(msg.decode(nothing))
                    } else {
                        Step::Next(Exchange::Receiving { msg }, Action::ReadExact(len))
                    }
                },
                other => Step::Failed(other.failure()),
            },
            Exchange::Receiving { msg } => match event {
                Event::Data(reply) => {
                    let more: usize = match &msg {
                        Message::WriteThenRead(_, count) => {
                            if reply.len() == 1 && reply[0] == 0x01 {
                                assert(reply@ =~= seq![0x01u8]);
                                *count as usize
                            } else {
                                0
                            }
                        },
                        _ => 0,
                    };
                    if more > 0 {
                        Step::Next(Exchange::ReceivingData { msg }, Action::ReadExact(more))
                    } else {
                        finished(msg.decode(reply))
                    }
                },
                other => Step::Failed(other.failure()),
            },
            Exchange::ReceivingData { msg } => match event {
                Event::Data(data) => {
                    let mut reply: Vec<u8> = Vec::new();
                    reply.push(0x01);
                    append_bytes(&mut reply, &data);
                    assert(reply@ =~= seq![0x01u8] + data@);
                    finished(msg.decode(reply))
                },
                other => Step::Failed(other.failure()),
            },
        }
    }
}

/// A session with a device that is in binary I2C mode.
#[derive(Debug, PartialEq, Eq, Structural)]
pub struct I2CConn {}

impl View for I2CConn {
    type V = I2CConn;

    open spec fn view(&self) -> I2CConn {
        *self
    }
}

impl I2CConn {
    /// A session with a device that has confirmed its entry into I2C mode.
    pub fn new() -> Self {
        Self {  }
    }

    /// Begins the exchange of `msg`: the first action is the write of its
    /// bytes. A command whose parameters are out of bounds is refused with
    /// `InvalidArgument` before anything is to be written.
    pub fn command(&self, msg: Message) -> (begun: Result<(Exchange, Action), ProtocolError>)
        ensures
            match begun {
                Ok((exchange, action)) => {
                    &&& exchange@ == (ExchangeView::Sending { msg: msg@ })
                    &&& msg@.encoding() is Ok
                    &&& action@ == ActionView::Write(msg@.encoding()->Ok_0)
                },
                Err(error) => msg@.encoding() == Err::<Seq<u8>, ErrorView>(error@),
            },
    {
        match msg.send() {
            Ok(bytes) => Ok((Exchange::Sending { msg }, Action::Write(bytes))),
            Err(error) => Err(error),
        }
    }
}

/// A bulk write of `n` bytes, for `n` from 1 to 16, is encoded as the header
/// `0b0001_0000 | (n - 1)` and then the bytes themselves. One of no byte, or
/// of more than 16, has no encoding: it fails with `InvalidArgument`.
pub proof fn bulk_write_header(bytes: Seq<u8>)
    ensures
        1 <= bytes.len() <= 16 ==> MessageView::BulkWrite(bytes).encoding() == Ok::<
            Seq<u8>,
            ErrorView,
        >(seq![0b0001_0000u8 | ((bytes.len() - 1) as u8)] + bytes),
        bytes.len() == 0 || bytes.len() > 16 ==> MessageView::BulkWrite(bytes).encoding() == Err::<
            Seq<u8>,
            ErrorView,
        >(ErrorView::InvalidArgument),
{
    if 1 <= bytes.len() <= 16 {
        let low: u8 = (bytes.len() - 1) as u8;
        assert(0b0001_0000u8 | low == 0x10 + low) by (bit_vector)
            requires
                low < 16,
        ;
    }
}

/// The speed read back out of the byte of a speed command is the speed that
/// the command was made with, for each of the four speeds.
pub proof fn speed_round_trip(speed: Speed)
    ensures
        MessageView::SetSpeed(speed).encoding() is Ok,
        MessageView::SetSpeed(speed).encoding()->Ok_0.len() == 1,
        Speed::of_command(MessageView::SetSpeed(speed).encoding()->Ok_0[0]) == Some(speed),
{
}

/// The byte of a speed command is `0b011000xx`, with the speed's two bits
/// low.
pub proof fn speed_command_layout(speed: Speed)
    ensures
        MessageView::SetSpeed(speed).encoding() == Ok::<Seq<u8>, ErrorView>(
            seq![0b0110_0000u8 | speed.code()],
        ),
{
    let code: u8 = speed.code();
    assert(0b0110_0000u8 | code == 0x60 + code) by (bit_vector)
        requires
            code < 4,
    ;
}

/// The byte of a peripheral command is `0b0100wxyz`: the power supply is bit
/// 3, the pull-ups bit 2, the AUX pin bit 1 and the CS pin bit 0.
pub proof fn configure_layout(power: bool, pullups: bool, aux: bool, cs: bool)
    ensures
        configure_byte(power, pullups, aux, cs) == 0b0100_0000u8 | flag(power, 0b1000) | flag(
            pullups,
            0b0100,
        ) | flag(aux, 0b0010) | flag(cs, 0b0001),
{
    let w: u8 = flag(power, 8);
    let x: u8 = flag(pullups, 4);
    let y: u8 = flag(aux, 2);
    let z: u8 = flag(cs, 1);
    assert(0b0100_0000u8 | w | x | y | z == 0x40 + w + x + y + z) by (bit_vector)
        requires
            w == 0 || w == 8,
            x == 0 || x == 4,
            y == 0 || y == 2,
            z == 0 || z == 1,
    ;
}

/// A write-then-read is encoded as `0x08`, the number of bytes to write and
/// the number of bytes to read, each as two bytes with the high one first,
/// and then the bytes to write.
pub proof fn write_then_read_layout(bytes: Seq<u8>, count: u16)
    requires
        bytes.len() <= 4096,
        count <= 4096,
    ensures
        MessageView::WriteThenRead(bytes, count).encoding() == Ok::<Seq<u8>, ErrorView>(
            seq![
                0x08u8,
                (bytes.len() / 256) as u8,
                (bytes.len() % 256) as u8,
                (count / 256) as u8,
                (count % 256) as u8,
            ] + bytes,
        ),
{
    let encoded = MessageView::WriteThenRead(bytes, count).encoding()->Ok_0;
    assert(encoded =~= seq![
        0x08u8,
        (bytes.len() / 256) as u8,
        (bytes.len() % 256) as u8,
        (count / 256) as u8,
        (count % 256) as u8,
    ] + bytes);
}

/// The reply to a write-then-read that is the status `0x01` and then as many
/// bytes as were asked for decodes to exactly those bytes; the status
/// `0x00` alone decodes to the slave's refusal.
pub proof fn write_then_read_reply(bytes: Seq<u8>, count: u16, data: Seq<u8>)
    requires
        data.len() == count,
    ensures
        MessageView::WriteThenRead(bytes, count).decoding(seq![0x01u8] + data) == Ok::<
            ReplyView,
            ErrorView,
        >(ReplyView::Data(data)),
        MessageView::WriteThenRead(bytes, count).decoding(seq![0x00u8]) == Ok::<
            ReplyView,
            ErrorView,
        >(ReplyView::Nacked),
{
    let reply = seq![0x01u8] + data;
    assert(reply.subrange(1, reply.len() as int) =~= data);
    assert(reply != seq![0x00u8]) by {
        assert(reply[0] == 0x01u8);
    }
}

/// The exchange of a write-then-read that is within bounds and reads at
/// least one byte: once the command is written the status byte is read;
/// after the status `0x01` the bytes that were asked for are read, and they
/// are the result; after the status `0x00` nothing more is read.
pub proof fn write_then_read_exchange(bytes: Seq<u8>, count: u16, data: Seq<u8>)
    requires
        bytes.len() <= 4096,
        0 < count <= 4096,
        data.len() == count,
    ensures
        ({
            let msg = MessageView::WriteThenRead(bytes, count);
            &&& exchange_step(ExchangeView::Sending { msg }, EventView::Written) == StepView::<
                ExchangeView,
                ReplyView,
            >::Next(ExchangeView::Receiving { msg }, ActionView::ReadExact(1))
            &&& exchange_step(ExchangeView::Receiving { msg }, EventView::Data(seq![0x01u8]))
                == StepView::<ExchangeView, ReplyView>::Next(
                ExchangeView::ReceivingData { msg },
                ActionView::ReadExact(count as nat),
            )
            &&& exchange_step(ExchangeView::ReceivingData { msg }, EventView::Data(data))
                == StepView::<ExchangeView, ReplyView>::Done(ReplyView::Data(data))
            &&& exchange_step(ExchangeView::Receiving { msg }, EventView::Data(seq![0x00u8]))
                == StepView::<ExchangeView, ReplyView>::Done(ReplyView::Nacked)
        }),
{
    write_then_read_reply(bytes, count, data);
    assert(seq![0x00u8] != seq![0x01u8]) by {
        assert(seq![0x00u8][0] != seq![0x01u8][0]);
    }
}

} // verus!
