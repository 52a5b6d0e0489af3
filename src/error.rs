//! The ways that parsing or building a CUSIP can fail.

use vstd::prelude::*;

verus! {

/// All the ways parsing or building could fail. Each variant carries what was
/// found, for diagnostics.
#[non_exhaustive]
#[allow(inconsistent_fields)]
#[derive(Clone, Copy, PartialEq, Eq, Debug)]
pub enum CUSIPError {
    /// The CUSIP length is not exactly 9 bytes (checked when parsing).
    InvalidCUSIPLength {
        /// The length found
        was: usize,
    },
    /// The _Payload_ length is not exactly 8 bytes (checked when building).
    InvalidPayloadLength {
        /// The length found
        was: usize,
    },
    /// The _Issuer Number_ length is not exactly 6 bytes (checked when building).
    InvalidIssuerNumLength {
        /// The length found
        was: usize,
    },
    /// The _Issue Number_ length is not exactly 2 bytes (checked when building).
    InvalidIssueNumLength {
        /// The length found
        was: usize,
    },
    /// The _Issuer Number_ is not six uppercase ASCII alphanumeric characters
    /// (checked when parsing or building).
    InvalidIssuerNum {
        /// The _Issuer Number_ found
        was: [u8; 6],
    },
    /// The _Issue Number_ is not two uppercase ASCII alphanumeric characters
    /// (checked when parsing or building).
    InvalidIssueNum {
        /// The _Issue Number_ found
        was: [u8; 2],
    },
    /// The _Check Digit_ is not a single ASCII decimal digit (checked when parsing).
    InvalidCheckDigit {
        /// The _Check Digit_ found
        was: u8,
    },
    /// The _Check Digit_ has a valid format but the wrong value (checked when parsing).
    IncorrectCheckDigit {
        /// The _Check Digit_ found
        was: u8,
        /// The _Check Digit_ computed from the payload
        expected: u8,
    },
}

} // verus!
