//! Vector ASC CAN traces.
//!
//! [`file::AscFile`] keeps header information and timestamped records in memory.
//! Classic CAN and CAN FD data frames can be converted to the shared
//! [`CanFrame`](crate::bus::CanFrame) representation. Remote and error frames
//! remain available in the ASC-specific object model because `CanFrame` does
//! not carry those states.

pub mod error;
pub mod file;
pub mod file_laws;
pub mod laws;
pub mod line;
pub mod read;
pub mod read_laws;
pub mod record;
pub mod record_laws;
pub mod spell;
pub mod write;

pub use error::{Error, Result};
pub use file::{AscFile, Stamp};
pub use record::{
    AscErrorFrame, AscEvent, AscHeader, AscMessage, AscRecord, Direction, NumberBase, TimestampMode,
};
