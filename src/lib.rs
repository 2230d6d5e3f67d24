//! Decoder for the compact binary table of per-opcode formatting rules.

pub mod cursor;
pub mod error;
pub mod laws;
pub mod rule;
pub mod shape;
pub mod spelling;
pub mod table;
