//! Verified readers and writers for automotive measurement and calibration files.

pub mod a2l;
pub mod asc;
pub mod blf;
pub mod bus;
pub mod numeral;
pub mod span;
pub mod text;
pub mod text_laws;
pub mod views;
