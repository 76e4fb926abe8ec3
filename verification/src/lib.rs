//! Driver for the SI1145 ultraviolet, visible and infrared light sensor.
//!
//! The chip sits on a two-wire bus and is driven through a small register and
//! command protocol. This crate turns that protocol into typed operations and
//! states, for each of them, exactly which bus transactions it performs and
//! what it returns for every answer the chip can give.
//!
//! * [`registers`] holds the register map, the parameter identifiers and the
//!   command opcodes.
//! * [`response`] decodes the command-response byte.
//! * [`bus`] holds the two capabilities the driver needs from its
//!   surroundings, bus transactions and a millisecond delay, and the
//!   timeline on which what it asked of them is recorded.
//! * [`protocol`] describes the register-level sequences as scripts and says
//!   when a stretch of the timeline is a run of a script.
//! * [`measure`] converts raw counts into physical quantities.
//! * [`driver`] is the sensor handle itself.

pub mod bus;
pub mod driver;
pub mod error;
pub mod measure;
pub mod protocol;
pub mod registers;
pub mod response;

pub use bus::{Bus, Delay, Event, Port};
pub use driver::Si1145;
pub use error::Error;
pub use measure::{Illuminance, UvIndex};
pub use registers::{Param, Register};
pub use response::{ResponseError, ResponseRegister};
