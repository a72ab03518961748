//! Vector BLF (Binary Logging Format) objects, containers and files.

pub mod app;
pub mod bytes;
pub mod can;
pub mod can_ext;
pub mod container;
pub mod count_laws;
pub mod error;
pub mod ethernet;
pub mod file;
pub mod file_header;
pub mod file_laws;
pub mod flags;
pub mod float64;
pub mod form_laws;
pub mod frame_laws;
pub mod frames;
pub mod general;
pub mod header;
pub mod layout_laws;
pub mod lin;
pub mod log_container;
pub mod object;
pub mod object_laws;
pub mod object_type;
pub mod pack_laws;
pub mod read_laws;
pub mod stream;
pub mod stream_laws;
pub mod time;
pub mod type_laws;
pub mod writer;
pub mod zlib;
