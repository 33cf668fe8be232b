//! Conversion of one numeric literal, written in decimal, hexadecimal or
//! binary, into its text in all three bases.
//!
//! Every function of this crate is verified against a model over
//! mathematical integers and sequences of characters.

pub mod command;
pub mod digits;
pub mod error;
pub mod formatter;
pub mod laws;
pub mod number_type;
pub mod reader;
pub mod writer;

pub use command::{CommandContext, CommandOptions};
pub use error::NumberFormatterError;
pub use formatter::{NumberFormatter, NumberFormatterFactory};
pub use number_type::NumberType;
