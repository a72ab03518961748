//! A2L (ASAM MCD-2 MC) files: tokens, blocks, a typed object model, and canonical text.

pub mod block;
pub mod error;
pub mod faithful;
pub mod laws;
pub mod maps;
pub mod model;
pub mod node;
pub mod number;
pub mod params;
pub mod spell;
pub mod text_laws;
pub mod token;
pub mod tree_laws;
pub mod writer;
