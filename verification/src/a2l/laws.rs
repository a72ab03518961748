//! Nodes read back from what is written for them.

pub mod annotation;
pub mod annotation_text;
pub mod canape;
pub mod characteristic;
pub mod compu;
pub mod device;
pub mod frame;
pub mod function;
pub mod header;
pub mod keywords;
pub mod kinds;
pub mod layout;
pub mod measurement;
pub mod model;
pub mod module;
pub mod options;
pub mod project;
pub mod spelling;
pub mod table;
pub mod transformer;
pub mod typedef;
pub mod variant;
