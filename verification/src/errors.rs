//! The failure modes of the library.
//!
//! Failures that are expected while enumerating candidates (a process that
//! cannot be opened, a module name that cannot be decoded) are swallowed by
//! the enumeration itself; the variants here are the failures that mean the
//! requested operation as a whole could not complete.

use vstd::prelude::*;

verus! {

/// Every way an operation of this crate can fail.
#[derive(Debug, Clone, Copy, PartialEq, Eq, Structural)]
pub enum Errors {
    /// A caller supplied an empty search target.
    EmptyInput,
    /// No running process matched the requested name.
    ProcessNotFound,
    /// The masked byte pattern was absent from the scanned range.
    SignatureNotFound,
    /// A raw name buffer contained no null terminator.
    NoTerminator,
    /// The bytes before the null terminator were not well-formed text.
    InvalidEncoding,
    /// A count or size could not be represented in the required integer width.
    IntegerOverflow,
}

impl Errors {
    /// A human-readable description of the failure.
    pub fn message(&self) -> (r: &'static str)
        ensures
            r@ == match *self {
                Errors::EmptyInput => "Error: The provided buffer is empty"@,
                Errors::ProcessNotFound => "Error: Process not found!"@,
                Errors::SignatureNotFound => "Error: Signature not found!"@,
                Errors::NoTerminator => "Error: No nul byte was present"@,
                Errors::InvalidEncoding => (
                "Error: Attempt to interpret a sequence of u8 as a String failed"@),
                Errors::IntegerOverflow => (
                "Error: The provided number is too large or too small to be processed"@),
            },
    {
        match *self {
            Errors::EmptyInput => "Error: The provided buffer is empty",
            Errors::ProcessNotFound => "Error: Process not found!",
            Errors::SignatureNotFound => "Error: Signature not found!",
            Errors::NoTerminator => "Error: No nul byte was present",
            Errors::InvalidEncoding => "Error: Attempt to interpret a sequence of u8 as a String failed",
            Errors::IntegerOverflow => "Error: The provided number is too large or too small to be processed",
        }
    }
}

} // verus!
