//! Encoding and decoding of the RAPL power-unit and package power-limit
//! registers, and unit-aware edits of the limits they hold.
pub mod error;
pub mod power;
pub mod window;
