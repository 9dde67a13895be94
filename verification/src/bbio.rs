//! The binary bitbang mode: its commands, and the transitions from it into
//! the protocol modes.

use vstd::prelude::*;
use crate::error::{ErrorView, ProtocolError};
use crate::i2c::I2CConn;
use crate::link::{bytes_equal, failure_of, Action, ActionView, Event, EventView, Step, StepView};

verus! {

/// The version of the binary bitbang protocol that the device announced.
#[derive(Debug, Clone, Copy, PartialEq, Eq, Structural)]
pub enum BinModeVSN {
    One,
}

/// A pin whose direction the bitbang mode can set.
#[derive(Debug, Clone, Copy, PartialEq, Eq, Structural)]
pub enum Pin {
    AUX,
    MOSI,
    CLK,
    MISO,
    CS,
}

/// A pin or peripheral that the bitbang mode can switch on and off.
#[derive(Debug, Clone, Copy, PartialEq, Eq, Structural)]
pub enum OnOffItem {
    AUX,
    MOSI,
    CLK,
    MISO,
    CS,
    Power,
    Pullup,
}

/// A command of the binary bitbang mode.
#[derive(Debug, Clone, Copy, PartialEq, Eq, Structural)]
pub enum Message {
    ResetProto,
    SPI,
    I2C,
    UART,
    OneWire,
    RawWire,
    OpenOCDJTAG,
    Reserved(u8),
    ResetDevice,
    SelfTest,
    SetupPWM,
    DisablePWM,
    ProbeVoltage,
    ContinuousVoltage,
    MeasureFrequency,
    /// Makes the pin an input (`true`) and the other four outputs.
    ConfigurePinIO(bool, Pin),
    /// Switches the item on (`true`) and the other six off.
    SetOnOff(bool, OnOffItem),
}

impl Pin {
    /// The pin's bit in a direction command, whose low five bits are
    /// `AUX|MOSI|CLK|MISO|CS` from high to low.
    pub open spec fn mask(self) -> u8 {
        match self {
            Pin::AUX => 0x10,
            Pin::MOSI => 0x08,
            Pin::CLK => 0x04,
            Pin::MISO => 0x02,
            Pin::CS => 0x01,
        }
    }

    fn bit(&self) -> (bit: u8)
        ensures
            bit == self.mask(),
    {
        match self {
            Pin::AUX => 0x10,
            Pin::MOSI => 0x08,
            Pin::CLK => 0x04,
            Pin::MISO => 0x02,
            Pin::CS => 0x01,
        }
    }
}

impl OnOffItem {
    /// The item's bit in an on/off command, whose low seven bits are
    /// `POWER|PULLUP|AUX|MOSI|CLK|MISO|CS` from high to low.
    pub open spec fn mask(self) -> u8 {
        match self {
            OnOffItem::Power => 0x40,
            OnOffItem::Pullup => 0x20,
            OnOffItem::AUX => 0x10,
            OnOffItem::MOSI => 0x08,
            OnOffItem::CLK => 0x04,
            OnOffItem::MISO => 0x02,
            OnOffItem::CS => 0x01,
        }
    }

    fn bit(&self) -> (bit: u8)
        ensures
            bit == self.mask(),
    {
        match self {
            OnOffItem::Power => 0x40,
            OnOffItem::Pullup => 0x20,
            OnOffItem::AUX => 0x10,
            OnOffItem::MOSI => 0x08,
            OnOffItem::CLK => 0x04,
            OnOffItem::MISO => 0x02,
            OnOffItem::CS => 0x01,
        }
    }
}

impl Message {
    /// The command byte, where the command is one byte that this variant
    /// determines. The self test, and the PWM, voltage and frequency
    /// commands, are not among them.
    pub open spec fn opcode(self) -> Option<u8> {
        match self {
            Message::ResetProto => Some(0x00u8),
            Message::SPI => Some(0x01u8),
            Message::I2C => Some(0x02u8),
            Message::UART => Some(0x03u8),
            Message::OneWire => Some(0x04u8),
            Message::RawWire => Some(0x05u8),
            Message::OpenOCDJTAG => Some(0x06u8),
            Message::Reserved(b) => Some(0x0fu8 & b),
            Message::ResetDevice => Some(0x0fu8),
            Message::ConfigurePinIO(input, pin) => Some(
                if input {
                    (0x40 + pin.mask()) as u8
                } else {
                    0x40u8
                },
            ),
            Message::SetOnOff(on, item) => Some(
                if on {
                    (0x80 + item.mask()) as u8
                } else {
                    0x80u8
                },
            ),
            _ => None,
        }
    }

    /// The four bytes with which the device confirms that it entered a
    /// protocol mode: the ASCII texts `SPI1`, `I2C1`, `ART1`, `1W01` and
    /// `RAW1`. Other commands have no such reply.
    pub open spec fn magic(self) -> Option<Seq<u8>> {
        match self {
            Message::SPI => Some(seq![0x53u8, 0x50u8, 0x49u8, 0x31u8]),
            Message::I2C => Some(seq![0x49u8, 0x32u8, 0x43u8, 0x31u8]),
            Message::UART => Some(seq![0x41u8, 0x52u8, 0x54u8, 0x31u8]),
            Message::OneWire => Some(seq![0x31u8, 0x57u8, 0x30u8, 0x31u8]),
            Message::RawWire => Some(seq![0x52u8, 0x41u8, 0x57u8, 0x31u8]),
            _ => None,
        }
    }

    /// Whether `send` has bytes for this command.
    pub fn has_encoding(&self) -> (yes: bool)
        ensures
            yes == self.opcode().is_some(),
    {
        match self {
            Message::SelfTest
            | Message::SetupPWM
            | Message::DisablePWM
            | Message::ProbeVoltage
            | Message::ContinuousVoltage
            | Message::MeasureFrequency => false,
            _ => true,
        }
    }

    /// Whether `expect` has a reply for this command.
    pub fn has_magic(&self) -> (yes: bool)
        ensures
            yes == self.magic().is_some(),
    {
        match self {
            Message::SPI
            | Message::I2C
            | Message::UART
            | Message::OneWire
            | Message::RawWire => true,
            _ => false,
        }
    }

    /// The bytes that put this command on the wire: its one command byte.
    pub fn send(&self) -> (bytes: Vec<u8>)
        requires
            self.opcode().is_some(),
        ensures
            bytes@ == seq![self.opcode().unwrap()],
    {
        let byte: u8 = match *self {
            Message::ResetProto => 0b00000000,
            Message::SPI => 0b00000001,
            Message::I2C => 0b00000010,
            Message::UART => 0b00000011,
            Message::OneWire => 0b00000100,
            Message::RawWire => 0b00000101,
            Message::OpenOCDJTAG => 0b00000110,
            Message::Reserved(b) => 0b00001111 & b,
            Message::ResetDevice => 0b00001111,
            Message::ConfigurePinIO(input, pin) => if input {
                0b0100_0000 + pin.bit()
            } else {
                0b0100_0000
            },
            Message::SetOnOff(on, item) => if on {
                0b1000_0000 + item.bit()
            } else {
                0b1000_0000
            },
            _ => 0,
        };
        let bytes: Vec<u8> = vec![byte];
        assert(bytes@ =~= seq![self.opcode().unwrap()]);
        bytes
    }

    /// The bytes that the device answers this command with.
    pub fn expect(&self) -> (bytes: Vec<u8>)
        requires
            self.magic().is_some(),
        ensures
            bytes@ == self.magic().unwrap(),
    {
        let bytes: Vec<u8> = match *self {
            Message::SPI => vec![0x53u8, 0x50u8, 0x49u8, 0x31u8],
            Message::I2C => vec![0x49u8, 0x32u8, 0x43u8, 0x31u8],
            Message::UART => vec![0x41u8, 0x52u8, 0x54u8, 0x31u8],
            Message::OneWire => vec![0x31u8, 0x57u8, 0x30u8, 0x31u8],
            _ => vec![0x52u8, 0x41u8, 0x57u8, 0x31u8],
        };
        assert(bytes@ =~= self.magic().unwrap());
        bytes
    }
}

/// A session with a device that is in binary bitbang mode.
#[derive(Debug, PartialEq, Eq, Structural)]
pub struct BBIOConn {
    pub vsn: BinModeVSN,
}

impl View for BBIOConn {
    type V = BBIOConn;

    open spec fn view(&self) -> BBIOConn {
        *self
    }
}

/// A protocol mode whose entry the device confirms with a magic reply.
#[derive(Debug, Clone, Copy, PartialEq, Eq, Structural)]
pub enum Mode {
    SPI,
    I2C,
    UART,
    OneWire,
    RawWire,
}

impl View for Mode {
    type V = Mode;

    open spec fn view(&self) -> Mode {
        *self
    }
}

impl Mode {
    /// The bitbang command that asks for this mode.
    pub open spec fn entry(self) -> Message {
        match self {
            Mode::SPI => Message::SPI,
            Mode::I2C => Message::I2C,
            Mode::UART => Message::UART,
            Mode::OneWire => Message::OneWire,
            Mode::RawWire => Message::RawWire,
        }
    }

    /// The bitbang command that asks for this mode.
    pub fn command(&self) -> (msg: Message)
        ensures
            msg == self.entry(),
            msg.opcode().is_some(),
            msg.magic().is_some(),
    {
        match self {
            Mode::SPI => Message::SPI,
            Mode::I2C => Message::I2C,
            Mode::UART => Message::UART,
            Mode::OneWire => Message::OneWire,
            Mode::RawWire => Message::RawWire,
        }
    }
}

/// A session with a device that has entered a protocol mode. Only the I2C
/// mode has commands of its own here.
#[derive(Debug, PartialEq, Eq, Structural)]
pub enum Session {
    SPI,
    I2C(I2CConn),
    UART,
    OneWire,
    RawWire,
}

impl View for Session {
    type V = Session;

    open spec fn view(&self) -> Session {
        *self
    }
}

impl Mode {
    /// The session that a successful entry into this mode yields.
    pub open spec fn session(self) -> Session {
        match self {
            Mode::SPI => Session::SPI,
            Mode::I2C => Session::I2C(I2CConn {  }),
            Mode::UART => Session::UART,
            Mode::OneWire => Session::OneWire,
            Mode::RawWire => Session::RawWire,
        }
    }

    /// The session that a successful entry into this mode yields.
    fn entered(&self) -> (session: Session)
        ensures
            session == self.session(),
    {
        match self {
            Mode::SPI => Session::SPI,
            Mode::I2C => Session::I2C(I2CConn::new()),
            Mode::UART => Session::UART,
            Mode::OneWire => Session::OneWire,
            Mode::RawWire => Session::RawWire,
        }
    }
}

impl Session {
    /// The mode that the device is in.
    pub fn mode(&self) -> (mode: Mode)
        ensures
            mode.session() == *self,
    {
        match self {
            Session::SPI => Mode::SPI,
            Session::I2C(_) => Mode::I2C,
            Session::UART => Mode::UART,
            Session::OneWire => Mode::OneWire,
            Session::RawWire => Mode::RawWire,
        }
    }
}

/// Where the entry into a protocol mode stands. Each state names the action
/// whose event it waits for.
#[derive(Debug, PartialEq, Eq, Structural)]
pub enum ModeEntry {
    /// The command byte is being written.
    Sending { mode: Mode },
    /// The reply is being read.
    Receiving { mode: Mode },
}

impl View for ModeEntry {
    type V = ModeEntry;

    open spec fn view(&self) -> ModeEntry {
        *self
    }
}

/// The mode transition as a transition function. Once the command byte is
/// written, as many bytes as the magic has are read, once. The entry
/// succeeds, with the session of the mode, where they are the magic, byte
/// for byte, and fails with what was read where they are not. Nothing is
/// tried again.
pub open spec fn entry_step(state: ModeEntry, event: EventView) -> StepView<ModeEntry, Session> {
    match state {
        ModeEntry::Sending { mode } => match event {
            EventView::Written => StepView::Next(
                ModeEntry::Receiving { mode },
                ActionView::ReadExact(mode.entry().magic().unwrap().len()),
            ),
            _ => StepView::Failed(failure_of(event)),
        },
        ModeEntry::Receiving { mode } => match event {
            EventView::Data(reply) => if reply == mode.entry().magic().unwrap() {
                StepView::Done(mode.session())
            } else {
                StepView::Failed(ErrorView::ProtocolMismatch(reply))
            },
            _ => StepView::Failed(failure_of(event)),
        },
    }
}

impl ModeEntry {
    /// Takes the event of the action that this state waited for and decides
    /// what comes next.
    pub fn step(self, event: Event) -> (step: Step<ModeEntry, Session>)
        ensures
            step@ == entry_step(self, event@),
    {
        match self {
            ModeEntry::Sending { mode } => match event {
                Event::Written => {
                    let good_reply = mode.command().expect();
                    Step::Next(ModeEntry::Receiving { mode }, Action::ReadExact(good_reply.len()))
                },
                other => Step::Failed(other.failure()),
            },
            ModeEntry::Receiving { mode } => match event {
                Event::Data(reply) => {
                    let good_reply = mode.command().expect();
                    if bytes_equal(&reply, &good_reply) {
                        Step::Done(mode.entered())
                    } else {
                        Step::Failed(ProtocolError::ProtocolMismatch(reply))
                    }
                },
                other => Step::Failed(other.failure()),
            },
        }
    }
}

impl BBIOConn {
    /// A session with a device that announced protocol version `vsn`.
    pub fn new(vsn: BinModeVSN) -> (conn: Self)
        ensures
            conn.vsn == vsn,
    {
        Self { vsn: vsn }
    }

    /// Begins the entry into `mode`. The session is used up, whether or not
    /// the entry succeeds; the first action is the write of the command
    /// byte.
    pub fn enter_mode(self, mode: Mode) -> (begun: (ModeEntry, Action))
        ensures
            begun.0 == (ModeEntry::Sending { mode }),
            begun.1@ == ActionView::Write(seq![mode.entry().opcode().unwrap()]),
    {
        (ModeEntry::Sending { mode }, Action::Write(mode.command().send()))
    }

    /// Begins the entry into binary I2C mode: the first action is the write
    /// of the single byte `0x02`.
    pub fn enter_i2c_mode(self) -> (begun: (ModeEntry, Action))
        ensures
            begun.0 == (ModeEntry::Sending { mode: Mode::I2C }),
            begun.1@ == ActionView::Write(seq![0x02u8]),
    {
        self.enter_mode(Mode::I2C)
    }

    /// The one byte that asks for the OpenOCD JTAG mode. The device confirms
    /// it with no reply of a known length, so nothing is read and nothing is
    /// known of the mode it is in afterwards.
    pub fn enter_jtag_mode(self) -> (action: Action)
        ensures
            action@ == ActionView::Write(seq![0x06u8]),
    {
        Action::Write(Message::OpenOCDJTAG.send())
    }
}

/// Entering a mode, once its command byte is written, reads four bytes. It
/// succeeds if and only if they are the mode's magic; any other reply ends
/// it with `ProtocolMismatch` and that reply.
pub proof fn mode_entry_succeeds_iff_magic(mode: Mode, reply: Seq<u8>)
    ensures
        mode.entry().magic().is_some(),
        entry_step(ModeEntry::Sending { mode }, EventView::Written) == StepView::<
            ModeEntry,
            Session,
        >::Next(ModeEntry::Receiving { mode }, ActionView::ReadExact(4)),
        reply == mode.entry().magic().unwrap() ==> entry_step(
            ModeEntry::Receiving { mode },
            EventView::Data(reply),
        ) == StepView::<ModeEntry, Session>::Done(mode.session()),
        reply != mode.entry().magic().unwrap() ==> entry_step(
            ModeEntry::Receiving { mode },
            EventView::Data(reply),
        ) == StepView::<ModeEntry, Session>::Failed(ErrorView::ProtocolMismatch(reply)),
{
}

/// Entering I2C mode sends the single byte `0x02` and then reads four
/// bytes. It succeeds, with an I2C session, if and only if they are `I2C1`;
/// any other reply ends it with `ProtocolMismatch` and that reply.
pub proof fn i2c_entry_succeeds_iff_magic(reply: Seq<u8>)
    ensures
        Mode::I2C.entry().opcode() == Some(0x02u8),
        entry_step(ModeEntry::Sending { mode: Mode::I2C }, EventView::Written) == StepView::<
            ModeEntry,
            Session,
        >::Next(ModeEntry::Receiving { mode: Mode::I2C }, ActionView::ReadExact(4)),
        reply == seq![0x49u8, 0x32u8, 0x43u8, 0x31u8] ==> entry_step(
            ModeEntry::Receiving { mode: Mode::I2C },
            EventView::Data(reply),
        ) == StepView::<ModeEntry, Session>::Done(Session::I2C(I2CConn {  })),
        reply != seq![0x49u8, 0x32u8, 0x43u8, 0x31u8] ==> entry_step(
            ModeEntry::Receiving { mode: Mode::I2C },
            EventView::Data(reply),
        ) == StepView::<ModeEntry, Session>::Failed(ErrorView::ProtocolMismatch(reply)),
{
}

} // verus!
