//! Host-side protocol logic for the Bus Pirate: the resynchronisation that
//! forces the device into its binary bitbang mode, the transitions from
//! there into the protocol modes, the command codecs, and the catalog of
//! attached devices.
//!
//! Nothing here touches a serial port. Each conversation with the device is
//! a state machine: it names an [`link::Action`] for the owner of the port
//! to perform, takes the [`link::Event`] that came of it, and decides the
//! next step.

pub mod banner;
pub mod bbio;
pub mod device;
pub mod error;
pub mod i2c;
pub mod link;
pub mod path;
pub mod pirate;
pub mod resync_laws;
pub mod text;

pub use bbio::BBIOConn;
pub use device::{Device, Devices};
pub use i2c::I2CConn;
pub use pirate::BusPirate;
