//! Timeflake identifiers: 128-bit values holding a millisecond timestamp in
//! their top 48 bits and a random payload in their low 80 bits, written in the
//! hyphenated textual form of a UUID.
pub mod error;
pub mod flake;
pub mod foreign;
pub mod text;

pub use error::TimeflakeError;
pub use flake::Timeflake;
