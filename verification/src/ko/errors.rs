//! Errors specifically for when parsing a KO file
use vstd::prelude::*;

use crate::errors::{KOSValueParseError, OpcodeParseError};
use crate::ko::sections::SectionKind;

verus! {

#[verifier::external_type_specification]
#[verifier::external_body]
pub struct ExFromUtf8Error(std::string::FromUtf8Error);

/// An error encountered when parsing a KO file
#[derive(Debug)]
pub enum KOParseError {
    /// Error while reading a KO file header
    HeaderError(HeaderParseError),
    /// Error while reading a KO file section header table, where there is no Null section
    /// header at index 0 in the table; holds the kind found there
    MissingNullSectionHeader(SectionKind),
    /// Error while reading a KO file section header table, where there is a stray Null section
    /// header (a null section header anywhere but the first entry); holds its index
    StrayNullSectionHeader(u16),
    /// Error while reading a KO file string table
    StringTableParseError(StringTableParseError),
    /// Error while reading a KO file symbol table
    SymbolTableParseError(SymbolTableParseError),
    /// Error while reading a KO file data section
    DataSectionParseError(DataSectionParseError),
    /// Error while reading a KO file function section
    FunctionSectionParseError(FunctionSectionParseError),
    /// Error while reading a KO file relocation data section
    ReldSectionParseError(ReldSectionParseError),
    /// Error that the debug section of KerbalObject files is not yet defined, just reserved;
    /// holds the index of the section header that used the kind
    DebugSectionUnsupportedError(u16),
    /// Error while reading KO file section header table
    SectionHeaderParseError(SectionHeaderParseError),
    /// A null (0) section header table index was provided in the header for the .shstrtab
    NullShStrTabIndexError,
    /// An invalid section header table index was provided in the header for the .shstrtab:
    /// the index, and the number of sections
    InvalidShStrTabIndexError(u16, u16),
}

/// An error encountered when parsing a KO file's header
#[derive(Debug, Copy, Clone, PartialEq, Eq, Structural)]
pub enum HeaderParseError {
    /// Reached EOF before reading KO file magic
    MissingMagicError,
    /// Encountered an invalid KO file magic value, which means this was not a KO file, or
    /// corrupt: the value expected, and the value found
    InvalidMagicError(u32, u32),
    /// Reached EOF before reading KO file version
    MissingVersionError,
    /// Encountered an unsupported KO file version: the version this library reads, and
    /// the version found
    UnsupportedVersionError(u8, u8),
    /// Reached EOF before reading the number of section headers in the file
    MissingNumHeaders,
    /// Reached EOF before reading the section header string table index
    MissingShStrTabIndex,
}

/// An error encountered when parsing a KO file's string table
#[derive(Debug)]
pub enum StringTableParseError {
    /// Reached EOF at the given file byte before reaching the expected total size
    EOFError(usize, u32),
    /// The string with the given number that was read is not valid UTF-8
    InvalidUtf8Error(usize, std::string::FromUtf8Error),
}

/// An error encountered when parsing a section header from the section header table
#[derive(Debug, Copy, Clone, PartialEq, Eq, Structural)]
pub enum SectionHeaderParseError {
    /// Reached EOF before reading name index
    MissingNameIdxError,
    /// Reached EOF before reading section kind, at the given byte
    MissingSectionKindError(usize),
    /// Encountered invalid section kind (expected 0 to 6), at the given byte
    InvalidSectionKindError(usize, u8),
    /// Reached EOF before reading section size, at the given byte
    MissingSizeError(usize),
}

/// An error encountered when parsing a relocation entry from the relocation data table
#[derive(Debug, Copy, Clone, PartialEq, Eq, Structural)]
pub enum ReldEntryParseError {
    /// Reached EOF before reading section index
    MissingSectionIndexError,
    /// Reached EOF before reading instruction index
    MissingInstructionIndexError,
    /// Reached EOF before reading instruction operand index
    MissingOperandIndexError,
    /// Encountered invalid operand index while reading (expected 1 or 2)
    InvalidOperandIndexError(u8),
    /// Reached EOF before reading symbol table index
    MissingSymbolIndexError,
}

/// An error encountered when parsing a KOSymbol from the symbol table
#[derive(Debug, Copy, Clone, PartialEq, Eq, Structural)]
pub enum SymbolParseError {
    /// Reached EOF before reading name index
    MissingNameIndexError,
    /// Reached EOF before reading value index
    MissingValueIndexError,
    /// Reached EOF before reading symbol size
    MissingSymbolSizeError,
    /// Reached EOF before reading symbol binding
    MissingSymbolBindingError,
    /// Encountered an invalid symbol binding value (expected 0, 1, or 2)
    InvalidSymbolBindingError(u8),
    /// Reached EOF before reading symbol type
    MissingSymbolTypeError,
    /// Encountered an invalid symbol type value (expected 0 to 4)
    InvalidSymbolTypeError(u8),
    /// Reached EOF before reading symbol section index
    MissingSectionIndexError,
}

/// An error encountered while parsing a symbol table from a KO file
#[derive(Debug, Copy, Clone, PartialEq, Eq, Structural)]
pub enum SymbolTableParseError {
    /// Error while attempting to parse the symbol with the given number, at the given byte
    SymbolParseError(usize, usize, SymbolParseError),
}

/// An error encountered while parsing a data section from a KO file
#[derive(Debug, Copy, Clone, PartialEq, Eq, Structural)]
pub enum DataSectionParseError {
    /// Error while attempting to parse a data section entry, at the given byte
    KOSValueParseError(usize, KOSValueParseError),
}

/// An error parsing a function section instruction
#[derive(Debug, Copy, Clone, PartialEq, Eq, Structural)]
pub enum InstrParseError {
    /// Error reading invalid function section instruction opcode, at the given byte
    OpcodeParseError(usize, OpcodeParseError),
    /// Error running out of bytes while reading function section instruction operand (1 or 2)
    MissingOperand(usize),
}

/// An error encountered while parsing a function section from a KO file
#[derive(Debug, Copy, Clone, PartialEq, Eq, Structural)]
pub enum FunctionSectionParseError {
    /// Error reading invalid function section instruction, at the given byte
    InstrParseError(usize, InstrParseError),
}

/// An error encountered while parsing a relocation data section from a KO file
#[derive(Debug, Copy, Clone, PartialEq, Eq, Structural)]
pub enum ReldSectionParseError {
    /// Error reading the relocation data entry with the given number, at the given byte
    ReldEntryParseError(usize, usize, ReldEntryParseError),
}

/// An error encountered when calling .validate() on a KOFile instance to attempt to convert it to
/// a writable format
#[derive(Debug, Clone, PartialEq, Eq)]
pub enum ValidationError {
    /// Error when there is no section header table entry for a section in the KO file: the
    /// section's kind and index
    InvalidSectionIndexError(SectionKind, u16),
    /// Error when the section header table entry kind for a section doesn't match the
    /// section's kind: the section's kind, its index, and the kind of the header there
    SectionKindMismatchError(SectionKind, u16, SectionKind),
    /// Error when a section header in the KOFile doesn't have a corresponding section: its
    /// index, kind and name
    InvalidSectionHeaderError(u16, SectionKind, String),
    /// Error when a section header in the KOFile's name index is invalid: its index, kind
    /// and name index
    InvalidSectionHeaderNameIndexError(u16, SectionKind, usize),
}

/// What a ValidationError holds, with the section's name taken by its chars.
pub enum ValidationErrorView {
    /// No section header table entry for a section: the section's kind and index
    InvalidSectionIndexError(SectionKind, u16),
    /// The header's kind doesn't match the section's: the section's kind, its index, and the
    /// kind of the header there
    SectionKindMismatchError(SectionKind, u16, SectionKind),
    /// A section header without a section: its index, kind and name
    InvalidSectionHeaderError(u16, SectionKind, Seq<char>),
    /// A section header whose name index is invalid: its index, kind and name index
    InvalidSectionHeaderNameIndexError(u16, SectionKind, usize),
}

impl View for ValidationError {
    type V = ValidationErrorView;

    open spec fn view(&self) -> ValidationErrorView {
        match self {
            ValidationError::InvalidSectionIndexError(k, i) => ValidationErrorView::InvalidSectionIndexError(*k, *i),
            ValidationError::SectionKindMismatchError(k, i, h) => ValidationErrorView::SectionKindMismatchError(*k, *i, *h),
            ValidationError::InvalidSectionHeaderError(i, k, n) => ValidationErrorView::InvalidSectionHeaderError(*i, *k, n@),
            ValidationError::InvalidSectionHeaderNameIndexError(i, k, n) => ValidationErrorView::InvalidSectionHeaderNameIndexError(*i, *k, *n),
        }
    }
}

/// What a StringTableParseError holds, without the UTF-8 error's details.
pub enum StringTableParseErrorView {
    /// Reached EOF at the given file byte before reaching the expected total size
    EOFError(usize, u32),
    /// The string with the given number that was read is not valid UTF-8
    InvalidUtf8Error(usize),
}

impl View for StringTableParseError {
    type V = StringTableParseErrorView;

    open spec fn view(&self) -> StringTableParseErrorView {
        match self {
            StringTableParseError::EOFError(at, size) => StringTableParseErrorView::EOFError(*at, *size),
            StringTableParseError::InvalidUtf8Error(n, _) => StringTableParseErrorView::InvalidUtf8Error(*n),
        }
    }
}

/// What a KOParseError holds, with a string table's error taken by its view.
pub enum KOParseErrorView {
    /// Error while reading a KO file header
    HeaderError(HeaderParseError),
    /// No Null section header at index 0: the kind found there
    MissingNullSectionHeader(SectionKind),
    /// A null section header anywhere but the first entry: its index
    StrayNullSectionHeader(u16),
    /// Error while reading a string table
    StringTableParseError(StringTableParseErrorView),
    /// Error while reading a symbol table
    SymbolTableParseError(SymbolTableParseError),
    /// Error while reading a data section
    DataSectionParseError(DataSectionParseError),
    /// Error while reading a function section
    FunctionSectionParseError(FunctionSectionParseError),
    /// Error while reading a relocation data section
    ReldSectionParseError(ReldSectionParseError),
    /// A debug section's header: its index
    DebugSectionUnsupportedError(u16),
    /// Error while reading the section header table
    SectionHeaderParseError(SectionHeaderParseError),
    /// The header gives 0 as the index of the .shstrtab
    NullShStrTabIndexError,
    /// The header gives an index past the section header table for the .shstrtab: the
    /// index, and the number of sections
    InvalidShStrTabIndexError(u16, u16),
}

impl View for KOParseError {
    type V = KOParseErrorView;

    open spec fn view(&self) -> KOParseErrorView {
        match self {
            KOParseError::HeaderError(e) => KOParseErrorView::HeaderError(*e),
            KOParseError::MissingNullSectionHeader(k) => KOParseErrorView::MissingNullSectionHeader(*k),
            KOParseError::StrayNullSectionHeader(i) => KOParseErrorView::StrayNullSectionHeader(*i),
            KOParseError::StringTableParseError(e) => KOParseErrorView::StringTableParseError(e@),
            KOParseError::SymbolTableParseError(e) => KOParseErrorView::SymbolTableParseError(*e),
            KOParseError::DataSectionParseError(e) => KOParseErrorView::DataSectionParseError(*e),
            KOParseError::FunctionSectionParseError(e) => KOParseErrorView::FunctionSectionParseError(*e),
            KOParseError::ReldSectionParseError(e) => KOParseErrorView::ReldSectionParseError(*e),
            KOParseError::DebugSectionUnsupportedError(i) => KOParseErrorView::DebugSectionUnsupportedError(*i),
            KOParseError::SectionHeaderParseError(e) => KOParseErrorView::SectionHeaderParseError(*e),
            KOParseError::NullShStrTabIndexError => KOParseErrorView::NullShStrTabIndexError,
            KOParseError::InvalidShStrTabIndexError(i, n) => KOParseErrorView::InvalidShStrTabIndexError(*i, *n),
        }
    }
}

} // verus!
