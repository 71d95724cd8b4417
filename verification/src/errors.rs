//! Generic errors while reading KSM or KO files
use vstd::prelude::*;

verus! {

/// An error type that describes an error while just parsing a KOSValue
#[derive(Debug, Copy, Clone, PartialEq, Eq, Structural)]
pub enum KOSValueParseError {
    /// Error running out of bytes while reading KOSValue
    EOF,
    /// Error reading invalid KOSValue type
    InvalidType(u8),
}

/// An error type that describes an error while just parsing an Opcode
#[derive(Debug, Copy, Clone, PartialEq, Eq, Structural)]
pub enum OpcodeParseError {
    /// Error running out of bytes while reading instruction opcode
    EOF,
    /// Error reading invalid instruction opcode
    InvalidOpcode(u8),
}

} // verus!
