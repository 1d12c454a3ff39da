//! Parsing of written orders and unit positions.
mod error;
pub mod orders;
pub mod words;

pub use self::error::{Error, ErrorKind};
