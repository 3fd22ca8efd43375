//! Parsing and validation of bomb edgework descriptions, and conditions over them.

pub mod condition;
pub mod edgework;
pub mod indicators;
pub mod ports;
pub mod serial;
pub mod shape;
pub mod text;
