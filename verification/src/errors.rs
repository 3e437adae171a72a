use vstd::prelude::*;

verus! {

/// Why loading a documentation set failed.
#[derive(Debug, PartialEq, Eq)]
pub enum Errors {
    /// The source file could not be read; carries a human-readable reason.
    IoError(String),
    /// The bytes were not valid JSON, or the JSON did not match the expected
    /// top-level shape; carries a human-readable reason.
    ParseError(String),
}

} // verus!
