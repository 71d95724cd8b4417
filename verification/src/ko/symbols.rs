//! Describes symbols contained within a KO file's symbol table
use vstd::prelude::*;

use crate::buffer::BufferIterator;
use crate::ko::errors::{ReldEntryParseError, SymbolParseError};
use crate::ko::sections::{
    data_idx, group_data_idx, group_instr_idx, group_string_idx, group_symbol_idx, instr_idx,
    string_idx, symbol_idx, DataIdx, InstrIdx, StringIdx, SymbolIdx,
};
use crate::ko::{group_section_idx, section_idx, SectionIdx};
use crate::primitives::{
    le_u16, le_u32, lemma_le_u16, lemma_le_u32, lemma_take_middle, lemma_u16_at, lemma_u32_at, write_u16_le, write_u32_le,
    FromBytes,
};

verus! {

/// Represents the "binding" of a symbol in the symbol table.
///
/// This is akin to the visibility level of the symbol. Is it a "local" symbol, where it can
/// only be recognized within this KO file, or is it global, and can be linked against from
/// another file?
#[derive(Debug, PartialEq, Eq, Clone, Copy, Hash, Structural)]
pub enum SymBind {
    /// This symbol is only visible within the current object file.
    Local,
    /// This symbol is visible to the linker from other object files.
    Global,
    /// This symbol doesn't exist in the current object file, it is external.
    /// This should be matched with a corresponding symbol of the same name marked as Global
    Extern,
}

/// The byte a symbol binding is written as.
pub open spec fn sym_bind_byte(b: SymBind) -> u8 {
    match b {
        SymBind::Local => 0,
        SymBind::Global => 1,
        SymBind::Extern => 2,
    }
}

/// The symbol binding a byte stands for, if any (0, 1 or 2).
pub open spec fn sym_bind_of_byte(b: u8) -> Option<SymBind> {
    if b == 0 {
        Some(SymBind::Local)
    } else if b == 1 {
        Some(SymBind::Global)
    } else if b == 2 {
        Some(SymBind::Extern)
    } else {
        None
    }
}

impl TryFrom<u8> for SymBind {
    type Error = ();

    fn try_from(byte: u8) -> (r: Result<Self, Self::Error>) {
        match byte {
            0 => Ok(Self::Local),
            1 => Ok(Self::Global),
            2 => Ok(Self::Extern),
            _ => Err(()),
        }
    }
}

impl vstd::std_specs::convert::TryFromSpecImpl<u8> for SymBind {
    open spec fn obeys_try_from_spec() -> bool {
        true
    }

    open spec fn try_from_spec(byte: u8) -> Result<SymBind, ()> {
        match sym_bind_of_byte(byte) {
            Some(b) => Ok(b),
            None => Err(()),
        }
    }
}

impl From<SymBind> for u8 {
    fn from(bind: SymBind) -> (r: u8) {
        match bind {
            SymBind::Local => 0,
            SymBind::Global => 1,
            SymBind::Extern => 2,
        }
    }
}

impl vstd::std_specs::convert::FromSpecImpl<SymBind> for u8 {
    open spec fn obeys_from_spec() -> bool {
        true
    }

    open spec fn from_spec(bind: SymBind) -> u8 {
        sym_bind_byte(bind)
    }
}

/// This represents the type of symbol.
#[derive(Debug, PartialEq, Eq, Clone, Copy, Hash, Structural)]
pub enum SymType {
    /// No type, used for any type of data, such as KOSValues in a data section.
    NoType,
    /// An object. Specified for forward-compatibility, currently unused.
    Object,
    /// A function defined elsewhere in the file.
    Func,
    /// A reference to a section of this object file.
    Section,
    /// The filename of the file that produced the object file.
    /// Only one of these can be specified in each object file.
    File,
}

/// The byte a symbol type is written as.
pub open spec fn sym_type_byte(t: SymType) -> u8 {
    match t {
        SymType::NoType => 0,
        SymType::Object => 1,
        SymType::Func => 2,
        SymType::Section => 3,
        SymType::File => 4,
    }
}

/// The symbol type a byte stands for, if any (0 to 4).
pub open spec fn sym_type_of_byte(b: u8) -> Option<SymType> {
    if b == 0 {
        Some(SymType::NoType)
    } else if b == 1 {
        Some(SymType::Object)
    } else if b == 2 {
        Some(SymType::Func)
    } else if b == 3 {
        Some(SymType::Section)
    } else if b == 4 {
        Some(SymType::File)
    } else {
        None
    }
}

impl TryFrom<u8> for SymType {
    type Error = ();

    fn try_from(byte: u8) -> (r: Result<Self, Self::Error>) {
        match byte {
            0 => Ok(Self::NoType),
            1 => Ok(Self::Object),
            2 => Ok(Self::Func),
            3 => Ok(Self::Section),
            4 => Ok(Self::File),
            _ => Err(()),
        }
    }
}

impl vstd::std_specs::convert::TryFromSpecImpl<u8> for SymType {
    open spec fn obeys_try_from_spec() -> bool {
        true
    }

    open spec fn try_from_spec(byte: u8) -> Result<SymType, ()> {
        match sym_type_of_byte(byte) {
            Some(t) => Ok(t),
            None => Err(()),
        }
    }
}

impl From<SymType> for u8 {
    fn from(sym_type: SymType) -> (r: u8) {
        match sym_type {
            SymType::NoType => 0,
            SymType::Object => 1,
            SymType::Func => 2,
            SymType::Section => 3,
            SymType::File => 4,
        }
    }
}

impl vstd::std_specs::convert::FromSpecImpl<SymType> for u8 {
    open spec fn obeys_from_spec() -> bool {
        true
    }

    open spec fn from_spec(sym_type: SymType) -> u8 {
        sym_type_byte(sym_type)
    }
}

/// This represents the operand index of an operand to replace from a relocation data section,
/// because instructions can have 0, 1, or 2 operands, this value can only be 1 or 2, because those
/// are the only values that make sense. This provides a certain degree of type safety.
#[derive(Debug, PartialEq, Eq, Clone, Copy, Hash, Structural)]
pub enum OperandIndex {
    /// The first operand
    One,
    /// The second operand
    Two,
}

/// The byte an operand index is written as.
pub open spec fn operand_index_byte(i: OperandIndex) -> u8 {
    match i {
        OperandIndex::One => 1,
        OperandIndex::Two => 2,
    }
}

/// The operand index a byte stands for, if any (1 or 2).
pub open spec fn operand_index_of_byte(b: u8) -> Option<OperandIndex> {
    if b == 1 {
        Some(OperandIndex::One)
    } else if b == 2 {
        Some(OperandIndex::Two)
    } else {
        None
    }
}

impl TryFrom<u8> for OperandIndex {
    type Error = ();

    fn try_from(byte: u8) -> (r: Result<Self, Self::Error>) {
        match byte {
            1 => Ok(Self::One),
            2 => Ok(Self::Two),
            _ => Err(()),
        }
    }
}

impl vstd::std_specs::convert::TryFromSpecImpl<u8> for OperandIndex {
    open spec fn obeys_try_from_spec() -> bool {
        true
    }

    open spec fn try_from_spec(byte: u8) -> Result<OperandIndex, ()> {
        match operand_index_of_byte(byte) {
            Some(i) => Ok(i),
            None => Err(()),
        }
    }
}

impl From<OperandIndex> for u8 {
    fn from(index: OperandIndex) -> (r: u8) {
        match index {
            OperandIndex::One => 1,
            OperandIndex::Two => 2,
        }
    }
}

impl vstd::std_specs::convert::FromSpecImpl<OperandIndex> for u8 {
    open spec fn obeys_from_spec() -> bool {
        true
    }

    open spec fn from_spec(index: OperandIndex) -> u8 {
        operand_index_byte(index)
    }
}

/// Symbol bindings, symbol types and operand indices are stored as the KO format's fixed
/// numbers: a binding as 0 (local), 1 (global) or 2 (extern); a type as 0 (no type),
/// 1 (object), 2 (function), 3 (section) or 4 (file); an operand index as 1 or 2. Exactly
/// those bytes stand for one, each for its own.
pub proof fn symbol_enum_bytes(b: u8)
    ensures
        sym_bind_byte(SymBind::Local) == 0,
        sym_bind_byte(SymBind::Global) == 1,
        sym_bind_byte(SymBind::Extern) == 2,
        sym_bind_of_byte(b) matches Some(x) ==> sym_bind_byte(x) == b,
        sym_bind_of_byte(b) is None <==> b > 2,
        sym_type_byte(SymType::NoType) == 0,
        sym_type_byte(SymType::Object) == 1,
        sym_type_byte(SymType::Func) == 2,
        sym_type_byte(SymType::Section) == 3,
        sym_type_byte(SymType::File) == 4,
        sym_type_of_byte(b) matches Some(x) ==> sym_type_byte(x) == b,
        sym_type_of_byte(b) is None <==> b > 4,
        operand_index_byte(OperandIndex::One) == 1,
        operand_index_byte(OperandIndex::Two) == 2,
        operand_index_of_byte(b) matches Some(x) ==> operand_index_byte(x) == b,
        operand_index_of_byte(b) is None <==> (b == 0 || b > 2),
{
}

/// Every symbol binding, symbol type and operand index is read back from its byte.
pub proof fn symbol_enums_round_trip(b: SymBind, t: SymType, i: OperandIndex)
    ensures
        sym_bind_of_byte(sym_bind_byte(b)) == Some(b),
        sym_type_of_byte(sym_type_byte(t)) == Some(t),
        operand_index_of_byte(operand_index_byte(i)) == Some(i),
{
}

/// Represents a symbol in a symbol table in a Kerbal Object file
#[derive(Debug, Clone, Copy, PartialEq, Eq, Hash, Structural)]
pub struct KOSymbol {
    /// The index into the .symstrtab that is the name of this symbol
    pub name_idx: StringIdx,
    /// The index into the .data section that this symbol refers to
    pub value_idx: DataIdx,
    /// The size of the data this symbol refers to in bytes
    pub size: u16,
    /// The symbol binding of this symbol
    pub sym_bind: SymBind,
    /// The symbol type
    pub sym_type: SymType,
    /// The section header index this symbol refers to
    pub sh_idx: SectionIdx,
}

/// The bytes a symbol is written as: name index (4), value index (4), size (2), binding (1),
/// type (1), section index (2), each number little-endian.
pub open spec fn symbol_bytes(s: KOSymbol) -> Seq<u8> {
    le_u32(s.name_idx@) + le_u32(s.value_idx@) + le_u16(s.size) + seq![
        sym_bind_byte(s.sym_bind),
        sym_type_byte(s.sym_type),
    ] + le_u16(s.sh_idx@)
}

/// What `KOSymbol::parse` reads at `pos`, with the position it leaves the reader at.
pub open spec fn decode_symbol(data: Seq<u8>, pos: int) -> (Result<KOSymbol, SymbolParseError>, int) {
    match <u32 as FromBytes>::decode(data, pos) {
        (Err(_), p) => (Err(SymbolParseError::MissingNameIndexError), p),
        (Ok(name), p) => match <u32 as FromBytes>::decode(data, p) {
            (Err(_), p) => (Err(SymbolParseError::MissingValueIndexError), p),
            (Ok(value), p) => match <u16 as FromBytes>::decode(data, p) {
                (Err(_), p) => (Err(SymbolParseError::MissingSymbolSizeError), p),
                (Ok(size), p) => match <u8 as FromBytes>::decode(data, p) {
                    (Err(_), p) => (Err(SymbolParseError::MissingSymbolBindingError), p),
                    (Ok(raw_bind), p) => match sym_bind_of_byte(raw_bind) {
                        None => (Err(SymbolParseError::InvalidSymbolBindingError(raw_bind)), p),
                        Some(sym_bind) => match <u8 as FromBytes>::decode(data, p) {
                            (Err(_), p) => (Err(SymbolParseError::MissingSymbolTypeError), p),
                            (Ok(raw_type), p) => match sym_type_of_byte(raw_type) {
                                None => (
                                    Err(SymbolParseError::InvalidSymbolTypeError(raw_type)),
                                    p,
                                ),
                                Some(sym_type) => match <u16 as FromBytes>::decode(data, p) {
                                    (Err(_), p) => (
                                        Err(SymbolParseError::MissingSectionIndexError),
                                        p,
                                    ),
                                    (Ok(sh), p) => (
                                        Ok(
                                            KOSymbol {
                                                name_idx: string_idx(name),
                                                value_idx: data_idx(value),
                                                size,
                                                sym_bind,
                                                sym_type,
                                                sh_idx: section_idx(sh),
                                            },
                                        ),
                                        p,
                                    ),
                                },
                            },
                        },
                    },
                },
            },
        },
    }
}

impl KOSymbol {
    /// Creates a new KOSymbol
    pub fn new(
        name_idx: StringIdx,
        value_idx: DataIdx,
        size: u16,
        sym_bind: SymBind,
        sym_type: SymType,
        sh_idx: SectionIdx,
    ) -> (r: Self)
        ensures
            r == (KOSymbol { name_idx, value_idx, size, sym_bind, sym_type, sh_idx }),
    {
        Self { name_idx, value_idx, size, sym_bind, sym_type, sh_idx }
    }

    /// Returns the size of a symbol table entry in bytes
    pub fn size_bytes() -> (r: u32)
        ensures
            r == 14,
    {
        14
    }

    /// Parses a KOSymbol from the provided buffer
    pub fn parse(source: &mut BufferIterator) -> (r: Result<Self, SymbolParseError>)
        requires
            old(source).wf(),
        ensures
            final(source).wf(),
            final(source).data() == old(source).data(),
            (r, final(source).pos()) == decode_symbol(old(source).data(), old(source).pos()),
    {
        proof {
            broadcast use group_string_idx, group_data_idx, group_section_idx;
        }
        let name = match u32::from_bytes(source) {
            Ok(n) => n,
            Err(_) => {
                return Err(SymbolParseError::MissingNameIndexError);
            },
        };
        let value = match u32::from_bytes(source) {
            Ok(v) => v,
            Err(_) => {
                return Err(SymbolParseError::MissingValueIndexError);
            },
        };
        let size = match u16::from_bytes(source) {
            Ok(s) => s,
            Err(_) => {
                return Err(SymbolParseError::MissingSymbolSizeError);
            },
        };
        let raw_sym_bind = match u8::from_bytes(source) {
            Ok(b) => b,
            Err(_) => {
                return Err(SymbolParseError::MissingSymbolBindingError);
            },
        };
        let sym_bind = match SymBind::try_from(raw_sym_bind) {
            Ok(b) => b,
            Err(_) => {
                return Err(SymbolParseError::InvalidSymbolBindingError(raw_sym_bind));
            },
        };
        let raw_sym_type = match u8::from_bytes(source) {
            Ok(t) => t,
            Err(_) => {
                return Err(SymbolParseError::MissingSymbolTypeError);
            },
        };
        let sym_type = match SymType::try_from(raw_sym_type) {
            Ok(t) => t,
            Err(_) => {
                return Err(SymbolParseError::InvalidSymbolTypeError(raw_sym_type));
            },
        };
        let sh = match u16::from_bytes(source) {
            Ok(i) => i,
            Err(_) => {
                return Err(SymbolParseError::MissingSectionIndexError);
            },
        };
        Ok(
            Self {
                name_idx: StringIdx::from(name),
                value_idx: DataIdx::from(value),
                size,
                sym_bind,
                sym_type,
                sh_idx: SectionIdx::from(sh),
            },
        )
    }

    /// Converts this KOSymbol to its binary representation and appends it to the provided buffer
    pub fn write(&self, buf: &mut Vec<u8>)
        ensures
            final(buf)@ == old(buf)@ + symbol_bytes(*self),
    {
        let ghost start = buf@;
        write_u32_le(u32::from(self.name_idx), buf);
        write_u32_le(u32::from(self.value_idx), buf);
        write_u16_le(self.size, buf);
        buf.push(u8::from(self.sym_bind));
        buf.push(u8::from(self.sym_type));
        write_u16_le(u16::from(self.sh_idx), buf);
        assert(buf@ == start + symbol_bytes(*self));
    }
}

/// A symbol that was read took 14 bytes of the buffer.
pub proof fn lemma_decode_symbol_len(data: Seq<u8>, pos: int)
    requires
        0 <= pos,
    ensures
        decode_symbol(data, pos).0 is Ok ==> decode_symbol(data, pos).1 == pos + 14
            && decode_symbol(data, pos).1 <= data.len(),
{
}

/// A symbol is written as 14 bytes.
pub proof fn lemma_symbol_size(s: KOSymbol)
    ensures
        symbol_bytes(s).len() == 14,
{
    lemma_le_u32(s.name_idx@);
    lemma_le_u32(s.value_idx@);
    lemma_le_u16(s.size);
    lemma_le_u16(s.sh_idx@);
}

/// Writing a symbol and reading it back gives the same symbol, and the reader moves past
/// exactly its 14 bytes, whatever stands before and after.
pub proof fn symbol_round_trip(s: KOSymbol, prefix: Seq<u8>, rest: Seq<u8>)
    ensures
        decode_symbol(prefix + symbol_bytes(s) + rest, prefix.len() as int) == (
            Ok::<KOSymbol, SymbolParseError>(s),
            prefix.len() + 14int,
        ),
{
    broadcast use group_string_idx, group_data_idx, group_section_idx;

    let a = le_u32(s.name_idx@);
    let b = le_u32(s.value_idx@);
    let c = le_u16(s.size);
    let d = seq![sym_bind_byte(s.sym_bind), sym_type_byte(s.sym_type)];
    let e = le_u16(s.sh_idx@);
    lemma_symbol_size(s);
    let data = prefix + symbol_bytes(s) + rest;
    let n = prefix.len() as int;
    assert(data.subrange(n, n + 4) == a);
    assert(data.subrange(n + 4, n + 8) == b);
    assert(data.subrange(n + 8, n + 10) == c);
    assert(data.subrange(n + 12, n + 14) == e);
    lemma_u32_at(data, n, s.name_idx@);
    lemma_u32_at(data, n + 4, s.value_idx@);
    lemma_u16_at(data, n + 8, s.size);
    lemma_u16_at(data, n + 12, s.sh_idx@);
    assert(data[n + 10] == sym_bind_byte(s.sym_bind));
    assert(data[n + 11] == sym_type_byte(s.sym_type));
}

/// An entry in a relocation data section
#[derive(Debug, Clone, Copy, PartialEq, Eq, Hash, Structural)]
pub struct ReldEntry {
    /// The function section which this relocation applies to
    section_index: SectionIdx,
    /// The index of the instruction whose operand needs to be "relocated"
    instr_index: InstrIdx,
    /// The operand of the instruction which needs to be "relocated"
    operand_index: OperandIndex,
    /// The index into the symbol table which should replace this operand
    symbol_index: SymbolIdx,
}

/// What a relocation entry holds: the function section's index, the instruction's index,
/// the operand, and the symbol's index.
pub type ReldEntryView = (u16, u32, OperandIndex, u32);

impl View for ReldEntry {
    type V = ReldEntryView;

    closed spec fn view(&self) -> ReldEntryView {
        (self.section_index@, self.instr_index@, self.operand_index, self.symbol_index@)
    }
}

/// The bytes a relocation entry is written as: section index (2), instruction index (4),
/// operand index (1), symbol index (4), each number little-endian.
pub open spec fn reld_entry_bytes(e: ReldEntryView) -> Seq<u8> {
    le_u16(e.0) + le_u32(e.1) + seq![operand_index_byte(e.2)] + le_u32(e.3)
}

/// What `ReldEntry::parse` reads at `pos` (the entry taken by its view), with the position it
/// leaves the reader at.
pub open spec fn decode_reld_entry(data: Seq<u8>, pos: int) -> (
    Result<ReldEntryView, ReldEntryParseError>,
    int,
) {
    match <u16 as FromBytes>::decode(data, pos) {
        (Err(_), p) => (Err(ReldEntryParseError::MissingSectionIndexError), p),
        (Ok(section), p) => match <u32 as FromBytes>::decode(data, p) {
            (Err(_), p) => (Err(ReldEntryParseError::MissingInstructionIndexError), p),
            (Ok(instr), p) => match <u8 as FromBytes>::decode(data, p) {
                (Err(_), p) => (Err(ReldEntryParseError::MissingOperandIndexError), p),
                (Ok(raw), p) => match operand_index_of_byte(raw) {
                    None => (Err(ReldEntryParseError::InvalidOperandIndexError(raw)), p),
                    Some(operand) => match <u32 as FromBytes>::decode(data, p) {
                        (Err(_), p) => (Err(ReldEntryParseError::MissingSymbolIndexError), p),
                        (Ok(symbol), p) => (Ok((section, instr, operand, symbol)), p),
                    },
                },
            },
        },
    }
}

impl ReldEntry {
    /// Creates a new relocation data entry
    pub fn new(
        section_index: SectionIdx,
        instr_index: InstrIdx,
        operand_index: OperandIndex,
        symbol_index: SymbolIdx,
    ) -> (r: Self)
        ensures
            r@ == (section_index@, instr_index@, operand_index, symbol_index@),
    {
        Self { section_index, instr_index, operand_index, symbol_index }
    }

    /// The size of this relocation data entry in bytes
    pub fn size_bytes(&self) -> (r: u32)
        ensures
            r == 11,
    {
        11
    }

    /// Parses a ReldEntry from the provided byte buffer
    pub fn parse(source: &mut BufferIterator) -> (r: Result<Self, ReldEntryParseError>)
        requires
            old(source).wf(),
        ensures
            final(source).wf(),
            final(source).data() == old(source).data(),
            (match r {
                Ok(e) => Ok(e@),
                Err(e) => Err(e),
            }, final(source).pos()) == decode_reld_entry(old(source).data(), old(source).pos()),
    {
        proof {
            broadcast use group_instr_idx, group_symbol_idx, group_section_idx;
        }
        let section = match u16::from_bytes(source) {
            Ok(s) => s,
            Err(_) => {
                return Err(ReldEntryParseError::MissingSectionIndexError);
            },
        };
        let instr = match u32::from_bytes(source) {
            Ok(i) => i,
            Err(_) => {
                return Err(ReldEntryParseError::MissingInstructionIndexError);
            },
        };
        let raw_operand_index = match u8::from_bytes(source) {
            Ok(o) => o,
            Err(_) => {
                return Err(ReldEntryParseError::MissingOperandIndexError);
            },
        };
        let operand_index = match OperandIndex::try_from(raw_operand_index) {
            Ok(o) => o,
            Err(_) => {
                return Err(ReldEntryParseError::InvalidOperandIndexError(raw_operand_index));
            },
        };
        let symbol = match u32::from_bytes(source) {
            Ok(s) => s,
            Err(_) => {
                return Err(ReldEntryParseError::MissingSymbolIndexError);
            },
        };
        Ok(
            Self {
                section_index: SectionIdx::from(section),
                instr_index: InstrIdx::from(instr),
                operand_index,
                symbol_index: SymbolIdx::from(symbol),
            },
        )
    }

    /// Converts this ReldEntry to its binary representation and appends it to the provided buffer
    pub fn write(&self, buf: &mut Vec<u8>)
        ensures
            final(buf)@ == old(buf)@ + reld_entry_bytes(self@),
    {
        let ghost start = buf@;
        write_u16_le(u16::from(self.section_index), buf);
        write_u32_le(u32::from(self.instr_index), buf);
        buf.push(u8::from(self.operand_index));
        write_u32_le(u32::from(self.symbol_index), buf);
        assert(buf@ == start + reld_entry_bytes(self@));
    }
}

/// A relocation entry is written as 11 bytes.
pub proof fn lemma_reld_entry_size(e: ReldEntryView)
    ensures
        reld_entry_bytes(e).len() == 11,
{
    lemma_le_u16(e.0);
    lemma_le_u32(e.1);
    lemma_le_u32(e.3);
}

/// Writing a relocation entry and reading it back gives the same entry, and the reader moves
/// past exactly its 11 bytes, whatever stands before and after.
pub proof fn reld_entry_round_trip(e: ReldEntryView, prefix: Seq<u8>, rest: Seq<u8>)
    ensures
        decode_reld_entry(prefix + reld_entry_bytes(e) + rest, prefix.len() as int) == (
            Ok::<ReldEntryView, ReldEntryParseError>(e),
            prefix.len() + 11int,
        ),
{
    let a = le_u16(e.0);
    let b = le_u32(e.1);
    let c = seq![operand_index_byte(e.2)];
    let d = le_u32(e.3);
    lemma_reld_entry_size(e);
    let data = prefix + reld_entry_bytes(e) + rest;
    let n = prefix.len() as int;
    assert(data.subrange(n, n + 2) == a);
    assert(data.subrange(n + 2, n + 6) == b);
    assert(data.subrange(n + 7, n + 11) == d);
    lemma_u16_at(data, n, e.0);
    lemma_u32_at(data, n + 2, e.1);
    lemma_u32_at(data, n + 7, e.3);
    assert(data[n + 6] == operand_index_byte(e.2));
}

} // verus!
