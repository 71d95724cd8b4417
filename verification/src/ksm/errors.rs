//! Errors specifically for when parsing a KSM file
use vstd::prelude::*;

use crate::errors::{KOSValueParseError, OpcodeParseError};

verus! {

#[verifier::external_type_specification]
#[verifier::external_body]
pub struct ExIoError(std::io::Error);

/// An error encountered when parsing a KSM file
#[derive(Debug)]
pub enum KSMParseError {
    /// Error while decompressing a KSM file
    DecompressionError(std::io::Error),
    /// Error while reading a KSM file header
    HeaderError(HeaderParseError),
    /// Error while reading a KSM file argument section
    ArgumentSectionParseError(ArgumentSectionParseError),
    /// Error while reading a KSM file code section
    CodeSectionParseError(CodeSectionParseError),
    /// Error while reading a section type: a `%` after the argument section or a code
    /// section was followed by the end of the file. Holds the byte index of that end.
    MissingSectionType(usize),
    /// Error while reading a KSM file debug section
    DebugSectionParseError(DebugSectionParseError),
}

/// An error encountered when parsing a KSM file's header
#[derive(Debug, Copy, Clone, PartialEq, Eq, Structural)]
pub enum HeaderParseError {
    /// Error running out of bytes while reading KSM header
    EOF,
    /// Error while reading invalid KSM header: the first 4 bytes were not `k`, 3, `X`, `E`
    InvalidMagic(u32),
}

/// An error parsing an argument section
#[derive(Debug, Copy, Clone, PartialEq, Eq, Structural)]
pub enum ArgumentSectionParseError {
    /// Error running out of bytes while reading argument section header
    MissingHeader,
    /// Error while reading invalid argument section header (expected %A)
    InvalidHeader(u16),
    /// Error running out of bytes while reading argument section number of index bytes
    MissingNumArgIndexBytes,
    /// Error while reading invalid argument number of index bytes (supported: 1, 2, 3, 4)
    InvalidNumArgIndexBytes(u8),
    /// Error running out of bytes while reading KOSValue in argument section. The argument
    /// section ends when a % is found, and a code section begins
    EOF,
    /// Error while reading invalid argument section KOSValue, at the given byte offset
    KOSValueParseError(usize, KOSValueParseError),
}

/// An error parsing a code section
#[derive(Debug, Copy, Clone, PartialEq, Eq, Structural)]
pub enum CodeSectionParseError {
    /// Error running out of bytes while reading code section type
    MissingCodeSectionType,
    /// Error reading invalid code section type (expected F, I, or M)
    InvalidCodeSectionType(u8),
    /// Error running out of bytes while reading code section instruction. The code section
    /// ends when a % is found, and a new code or debug section begins
    EOF,
    /// Error reading invalid code section instruction
    InstrParseError(InstrParseError),
}

/// An error parsing a code section instruction
#[derive(Debug, Copy, Clone, PartialEq, Eq, Structural)]
pub enum InstrParseError {
    /// Error reading invalid code section instruction opcode, at the given byte offset
    OpcodeParseError(usize, OpcodeParseError),
    /// Error running out of bytes while reading code section instruction operand (1 or 2)
    MissingOperand(usize),
}

/// An error parsing a debug section
#[derive(Debug, Copy, Clone, PartialEq, Eq, Structural)]
pub enum DebugSectionParseError {
    /// Error reading invalid debug section entry, at the given byte offset
    DebugEntryParseError(usize, DebugEntryParseError),
    /// Error running out of bytes while reading debug section range size
    MissingDebugRangeSize,
    /// Error reading invalid debug section range size (supported: 1, 2, 3, 4)
    InvalidDebugRangeSize(u8),
}

/// An error parsing a debug section entry
#[derive(Debug, Copy, Clone, PartialEq, Eq, Structural)]
pub enum DebugEntryParseError {
    /// Error running out of bytes while reading debug section entry line number
    MissingLineNumber,
    /// Error running out of bytes while reading debug section entry number of ranges
    MissingNumRanges,
    /// Error running out of bytes while reading debug range number `0`
    MissingRange(usize),
}

} // verus!
