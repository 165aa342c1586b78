//! Protocol core of a driver for the Hantek DSO2C10 oscilloscope.
//!
//! The crate turns typed get and set operations into the ASCII commands the
//! instrument understands and reads the instrument's answers back into typed
//! values. It never touches the transport: it says which bytes to hand to it
//! and what to make of the bytes that come back.

pub mod command;
pub mod decimal;
pub mod error;
pub mod exchange;
pub mod index;
pub mod interface;
pub mod package;
pub mod quantize;
pub mod scpi_boolean;
pub mod text;
pub mod value;

pub use decimal::Decimal;
pub use error::Error;
pub use exchange::{Decoder, Exchange};
pub use index::{BooleanIndex, StringIndex};
pub use interface::DSO2C10Interface;
pub use package::Package;
pub use scpi_boolean::ScpiBoolean;
pub use value::Value;
