//! Parsing and rendering of single HTTP header lines (`name: value`).
pub mod field;
pub mod text;

pub use field::{Field, ParseError};
