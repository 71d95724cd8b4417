//! A collection of the sections that can be contained within a KO file
use vstd::prelude::*;

use crate::buffer::{byte_at, BufferIterator};
use crate::ko::errors::SectionHeaderParseError;
use crate::primitives::{le_u32, lemma_le_u32, lemma_take_middle, write_u32_le, FromBytes};

mod data_section;
mod func_section;
mod reld_section;
mod string_table;
mod symbol_table;

pub use data_section::{
    data_idx, decode_data_values, group_data_idx, lemma_data_idx_ext, lemma_data_idx_view,
    DataIdx, DataSection, data_values_round_trip,
};
pub use func_section::{
    decode_func_instrs, group_instr_idx, instr_idx, ko_instrs_bytes, ko_instrs_size,
    lemma_instr_idx_ext, lemma_instr_idx_view, FuncSection, InstrIdx, func_instrs_round_trip,
    lemma_ko_instrs_bytes_len, lemma_ko_instrs_prepend,
};
pub use reld_section::{
    decode_reld_entries, group_reld_idx, lemma_reld_idx_ext, lemma_reld_idx_view,
    reld_entries_bytes, reld_idx, ReldIdx, ReldSection, reld_entries_round_trip,
    lemma_reld_entries_bytes_len, lemma_reld_entries_prepend,
};
pub use symbol_table::{
    decode_symbols, group_symbol_idx, has_name, last_with_name, lemma_symbol_idx_ext,
    lemma_symbol_idx_view, symbol_idx, symbols_bytes, SymbolIdx, SymbolTable, symbols_round_trip,
    lemma_symbols_bytes_len, lemma_symbols_prepend,
};
pub use string_table::{
    lemma_string_idx_ext, lemma_string_idx_view,
    decode_strings, group_string_idx, lemma_read_cstr_advances, read_cstr, string_idx,
    strtab_bytes, strtab_size, StringIdx, StringTable, strtab_round_trip, strings_without_nul,
    lemma_strtab_bytes_len, lemma_strtab_prepend, lemma_utf8_without_zero, lemma_read_cstr_at,
};

verus! {

/// The kind of section of an entry in the section header table
#[derive(Debug, PartialEq, Eq, Clone, Copy, Hash, Structural)]
pub enum SectionKind {
    /// A null section. There is always a Null section entry in the section header table
    /// which other parts of the object file can use to reference a section that does not exist.
    Null,
    /// A symbol table
    SymTab,
    /// A string table
    StrTab,
    /// A function table
    Func,
    /// A data section
    Data,
    /// A debug section
    Debug,
    /// A relocation data section
    Reld,
}

impl View for SectionKind {
    type V = SectionKind;

    open spec fn view(&self) -> SectionKind {
        *self
    }
}

/// The byte a section kind is written as.
pub open spec fn section_kind_byte(kind: SectionKind) -> u8 {
    match kind {
        SectionKind::Null => 0,
        SectionKind::SymTab => 1,
        SectionKind::StrTab => 2,
        SectionKind::Func => 3,
        SectionKind::Data => 4,
        SectionKind::Debug => 5,
        SectionKind::Reld => 6,
    }
}

/// The section kind a byte stands for, if any (0 to 6).
pub open spec fn section_kind_of_byte(b: u8) -> Option<SectionKind> {
    if b == 0 {
        Some(SectionKind::Null)
    } else if b == 1 {
        Some(SectionKind::SymTab)
    } else if b == 2 {
        Some(SectionKind::StrTab)
    } else if b == 3 {
        Some(SectionKind::Func)
    } else if b == 4 {
        Some(SectionKind::Data)
    } else if b == 5 {
        Some(SectionKind::Debug)
    } else if b == 6 {
        Some(SectionKind::Reld)
    } else {
        None
    }
}

impl TryFrom<u8> for SectionKind {
    type Error = ();

    fn try_from(byte: u8) -> (r: Result<Self, Self::Error>) {
        match byte {
            0 => Ok(Self::Null),
            1 => Ok(Self::SymTab),
            2 => Ok(Self::StrTab),
            3 => Ok(Self::Func),
            4 => Ok(Self::Data),
            5 => Ok(Self::Debug),
            6 => Ok(Self::Reld),
            _ => Err(()),
        }
    }
}

impl vstd::std_specs::convert::TryFromSpecImpl<u8> for SectionKind {
    open spec fn obeys_try_from_spec() -> bool {
        true
    }

    open spec fn try_from_spec(byte: u8) -> Result<SectionKind, ()> {
        match section_kind_of_byte(byte) {
            Some(k) => Ok(k),
            None => Err(()),
        }
    }
}

impl From<SectionKind> for u8 {
    fn from(kind: SectionKind) -> (r: Self) {
        match kind {
            SectionKind::Null => 0,
            SectionKind::SymTab => 1,
            SectionKind::StrTab => 2,
            SectionKind::Func => 3,
            SectionKind::Data => 4,
            SectionKind::Debug => 5,
            SectionKind::Reld => 6,
        }
    }
}

impl vstd::std_specs::convert::FromSpecImpl<SectionKind> for u8 {
    open spec fn obeys_from_spec() -> bool {
        true
    }

    open spec fn from_spec(kind: SectionKind) -> u8 {
        section_kind_byte(kind)
    }
}

/// A section header's kind is stored as the KO format's fixed number for it: 0 for the null
/// section, 1 for a symbol table, 2 for a string table, 3 for a function section, 4 for a
/// data section, 5 for a debug section and 6 for a relocation data section; exactly the bytes
/// 0 to 6 stand for a kind, each for its own.
pub proof fn section_kind_bytes(b: u8)
    ensures
        section_kind_byte(SectionKind::Null) == 0,
        section_kind_byte(SectionKind::SymTab) == 1,
        section_kind_byte(SectionKind::StrTab) == 2,
        section_kind_byte(SectionKind::Func) == 3,
        section_kind_byte(SectionKind::Data) == 4,
        section_kind_byte(SectionKind::Debug) == 5,
        section_kind_byte(SectionKind::Reld) == 6,
        section_kind_of_byte(b) matches Some(k) ==> section_kind_byte(k) == b,
        section_kind_of_byte(b) is None <==> b > 6,
{
}

/// Every section kind is read back from its byte.
pub proof fn section_kind_round_trip(kind: SectionKind)
    ensures
        section_kind_of_byte(section_kind_byte(kind)) == Some(kind),
{
}

/// A Kerbal Object file section header entry
#[derive(Debug, Clone, Copy, PartialEq, Eq, Hash, Structural)]
pub struct SectionHeader {
    /// The index into the KO file's .shstrtab (section header string table) which stores
    /// the name of this section.
    pub name_idx: StringIdx,
    /// The section's kind
    pub section_kind: SectionKind,
    /// The size of this *section* in bytes
    pub size: u32,
}

/// The bytes a section header is written as: the name index (4 bytes, little-endian), the
/// kind's byte, and the size (4 bytes, little-endian).
pub open spec fn section_header_bytes(h: SectionHeader) -> Seq<u8> {
    le_u32(h.name_idx@) + seq![section_kind_byte(h.section_kind)] + le_u32(h.size)
}

/// What `SectionHeader::parse` reads at `pos`, with the position it leaves the reader at.
pub open spec fn decode_section_header(data: Seq<u8>, pos: int) -> (
    Result<SectionHeader, SectionHeaderParseError>,
    int,
) {
    match <u32 as FromBytes>::decode(data, pos) {
        (Err(_), p) => (Err(SectionHeaderParseError::MissingNameIdxError), p),
        (Ok(name), p) => match byte_at(data, p) {
            None => (Err(SectionHeaderParseError::MissingSectionKindError(p as usize)), p),
            Some(raw) => match section_kind_of_byte(raw) {
                None => (
                    Err(SectionHeaderParseError::InvalidSectionKindError((p + 1) as usize, raw)),
                    p + 1,
                ),
                Some(kind) => match <u32 as FromBytes>::decode(data, p + 1) {
                    (Err(_), q) => (Err(SectionHeaderParseError::MissingSizeError(q as usize)), q),
                    (Ok(size), q) => (
                        Ok(SectionHeader { name_idx: string_idx(name), section_kind: kind, size }),
                        q,
                    ),
                },
            },
        },
    }
}

impl SectionHeader {
    /// Creates a new null section header entry, which **must** be present as the first entry into
    /// the section header table
    pub fn null() -> (r: Self)
        ensures
            r.name_idx@ == 0,
            r.section_kind == SectionKind::Null,
            r.size == 0,
    {
        proof {
            broadcast use group_string_idx;
        }
        Self { name_idx: StringIdx::from(0u32), section_kind: SectionKind::Null, size: 0 }
    }

    /// Creates a new section header entry
    pub fn new(name_idx: StringIdx, section_kind: SectionKind) -> (r: Self)
        ensures
            r == (SectionHeader { name_idx, section_kind, size: 0 }),
    {
        Self { name_idx, section_kind, size: 0 }
    }

    /// Parses a SectionHeader from the provided byte buffer
    pub fn parse(source: &mut BufferIterator) -> (r: Result<Self, SectionHeaderParseError>)
        requires
            old(source).wf(),
        ensures
            final(source).wf(),
            final(source).data() == old(source).data(),
            (r, final(source).pos()) == decode_section_header(old(source).data(), old(source).pos()),
    {
        proof {
            broadcast use group_string_idx;
        }
        let name = match u32::from_bytes(source) {
            Ok(n) => n,
            Err(_) => {
                return Err(SectionHeaderParseError::MissingNameIdxError);
            },
        };
        let raw = match source.next() {
            Some(b) => b,
            None => {
                return Err(SectionHeaderParseError::MissingSectionKindError(source.current_index()));
            },
        };
        let section_kind = match SectionKind::try_from(raw) {
            Ok(k) => k,
            Err(_) => {
                return Err(
                    SectionHeaderParseError::InvalidSectionKindError(source.current_index(), raw),
                );
            },
        };
        let size = match u32::from_bytes(source) {
            Ok(s) => s,
            Err(_) => {
                return Err(SectionHeaderParseError::MissingSizeError(source.current_index()));
            },
        };
        Ok(Self { name_idx: StringIdx::from(name), section_kind, size })
    }

    /// Converts this section header to its binary representation and appends it to the provided buffer
    pub fn write(&self, buf: &mut Vec<u8>)
        ensures
            final(buf)@ == old(buf)@ + section_header_bytes(*self),
    {
        write_u32_le(u32::from(self.name_idx), buf);
        buf.push(u8::from(self.section_kind));
        write_u32_le(self.size, buf);
    }
}

/// A section header is written as 9 bytes.
pub proof fn lemma_section_header_size(h: SectionHeader)
    ensures
        section_header_bytes(h).len() == 9,
{
    lemma_le_u32(h.name_idx@);
    lemma_le_u32(h.size);
}

/// Writing a section header and reading it back gives the same header, and the reader moves
/// past exactly its 9 bytes, whatever stands before and after.
pub proof fn section_header_round_trip(h: SectionHeader, prefix: Seq<u8>, rest: Seq<u8>)
    ensures
        decode_section_header(prefix + section_header_bytes(h) + rest, prefix.len() as int) == (
            Ok::<SectionHeader, SectionHeaderParseError>(h),
            prefix.len() + 9int,
        ),
{
    broadcast use group_string_idx;

    let name = le_u32(h.name_idx@);
    let kind = seq![section_kind_byte(h.section_kind)];
    let size = le_u32(h.size);
    let data = prefix + section_header_bytes(h) + rest;
    lemma_le_u32(h.name_idx@);
    lemma_le_u32(h.size);
    assert(data == prefix + name + (kind + size + rest));
    lemma_take_middle(prefix, name, kind + size + rest);
    assert(data[prefix.len() + 4int] == section_kind_byte(h.section_kind));
    assert(data == (prefix + name + kind) + size + rest);
    lemma_take_middle(prefix + name + kind, size, rest);
}

} // verus!
