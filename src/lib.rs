//! Validated CUSIP securities identifiers.
//!
//! A CUSIP is nine ASCII characters: a six-character uppercase alphanumeric
//! _Issuer Number_, a two-character uppercase alphanumeric _Issue Number_, and
//! one decimal _Check Digit_ computed with the modulus 10 "double-add-double"
//! technique. Every value of [`CUSIP`] is well formed by construction.
//!
//! Private Placement Number characters (`*`, `@`, `#`) are not supported: a
//! string holding one is rejected as a format error. The reservation of a `Z`
//! in positions 5 and 6 of the _Issuer Number_, which the standard states
//! ambiguously, is deliberately not treated as private use.

pub mod checksum;
pub mod error;
pub mod format;
pub mod identifier;
pub mod laws;
pub mod text;

pub use error::CUSIPError;
pub use identifier::{
    CINS, CUSIP, build_from_parts, build_from_payload, compute_check_digit, parse, parse_loose,
    validate,
};
