use vstd::prelude::*;

verus! {

/// Why an identifier could not be produced.
#[derive(Debug)]
pub enum TimeflakeError {
    /// The random source could not supply entropy.
    RNGError { msg: String },
    /// The system clock could not be read, or lies before the Unix epoch.
    SystemTimeError { msg: String },
    /// The text handed to the parser is not a well-formed identifier.
    MalformedData { msg: String },
}

} // verus!
