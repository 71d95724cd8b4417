//! # Kerbal Object files
//!
//! The module for describing, reading, and writing Kerbal Object files
//!
//! There **must** be at least the null section, and the .shstrtab, which are automatically
//! added for you using KOFile::new().
//!
//! Each section added **must** have an entry in the section header table, or you will get an error
//! attempting to validate the file. Also all section header table entries must correspond to a section.
//! The series of `new_<section name>` functions create a section header automatically for you, then you
//! later add the section to the KOFile using `.add_<section name>`.
use vstd::prelude::*;

use crate::buffer::BufferIterator;
use crate::primitives::{
    le_u16, le_u32, lemma_le_u16, lemma_le_u32, lemma_u16_at, lemma_u32_at, write_u16_le,
    write_u32_le, FromBytes,
};

pub mod errors;
pub mod instructions;
pub mod sections;
pub mod symbols;

pub use instructions::Instr;

use crate::ko::symbols::{KOSymbol, ReldEntry, ReldEntryView};
use crate::value::KOSValueView;
use errors::{
    HeaderParseError, KOParseError, KOParseErrorView, StringTableParseError,
    StringTableParseErrorView, ValidationError, ValidationErrorView,
};
use crate::value::values_bytes;
use crate::ko::instructions::ko_instr_round_trips;
use crate::value::{value_round_trips, values_size};
use crate::value::lemma_values_bytes_len;
use sections::{
    lemma_ko_instrs_bytes_len, lemma_reld_entries_bytes_len, lemma_strtab_bytes_len,
    lemma_symbols_bytes_len, data_values_round_trip, func_instrs_round_trip, ko_instrs_size, reld_entries_round_trip,
    strings_without_nul, strtab_round_trip, strtab_size, symbols_round_trip,
    lemma_section_header_size, section_header_round_trip, decode_data_values, decode_func_instrs, decode_reld_entries, decode_section_header,
    decode_strings, decode_symbols, ko_instrs_bytes, reld_entries_bytes, section_header_bytes, strtab_bytes, symbols_bytes,
    group_string_idx, string_idx, DataSection, FuncSection, ReldSection, SectionHeader,
    SectionKind, StringIdx, StringTable, SymbolTable,
};
use vstd::utf8::encode_utf8;

verus! {

/// A wrapper type that represents an index into a section header table of a KO file.
///
/// This type implements From<u16> and u16 implements From<SectionIdx>, but this is provided
/// so that it takes 1 extra step to convert raw integers into SectionIdx which could stop potential
/// logical bugs.
#[derive(Debug, Copy, Clone, PartialEq, Eq, Hash, Structural)]
pub struct SectionIdx(u16);

impl View for SectionIdx {
    type V = u16;

    closed spec fn view(&self) -> u16 {
        self.0
    }
}

/// The SectionIdx that holds `i`.
pub closed spec fn section_idx(i: u16) -> SectionIdx {
    SectionIdx(i)
}

/// A SectionIdx holds the number it was made from.
pub broadcast proof fn lemma_section_idx_view(i: u16)
    ensures
        #[trigger] section_idx(i)@ == i,
{
}

/// A SectionIdx is determined by the number it holds.
pub broadcast proof fn lemma_section_idx_ext(x: SectionIdx)
    ensures
        x == section_idx(#[trigger] x@),
{
}

/// What is known of every SectionIdx.
pub broadcast group group_section_idx {
    lemma_section_idx_view,
    lemma_section_idx_ext,
}

impl From<u8> for SectionIdx {
    fn from(i: u8) -> (r: Self) {
        Self(i as u16)
    }
}

impl vstd::std_specs::convert::FromSpecImpl<u8> for SectionIdx {
    open spec fn obeys_from_spec() -> bool {
        true
    }

    open spec fn from_spec(i: u8) -> SectionIdx {
        section_idx(i as u16)
    }
}

impl From<u16> for SectionIdx {
    fn from(i: u16) -> (r: Self) {
        Self(i)
    }
}

impl vstd::std_specs::convert::FromSpecImpl<u16> for SectionIdx {
    open spec fn obeys_from_spec() -> bool {
        true
    }

    open spec fn from_spec(i: u16) -> SectionIdx {
        section_idx(i)
    }
}

impl From<SectionIdx> for u16 {
    fn from(x: SectionIdx) -> (r: Self) {
        x.0
    }
}

impl vstd::std_specs::convert::FromSpecImpl<SectionIdx> for u16 {
    open spec fn obeys_from_spec() -> bool {
        true
    }

    open spec fn from_spec(x: SectionIdx) -> u16 {
        x@
    }
}

impl From<SectionIdx> for usize {
    fn from(x: SectionIdx) -> (r: Self) {
        x.0 as usize
    }
}

impl vstd::std_specs::convert::FromSpecImpl<SectionIdx> for usize {
    open spec fn obeys_from_spec() -> bool {
        true
    }

    open spec fn from_spec(x: SectionIdx) -> usize {
        x@ as usize
    }
}

/// The KO file format version this library reads and writes.
const FILE_VERSION: u8 = 4;

/// `k` 1 `o` `f`
const MAGIC_NUMBER: u32 = 0x666f016b;

/// The magic number that starts every KO file: `k` 1 `o` `f`.
pub open spec fn ko_magic() -> u32 {
    0x666f016b
}

/// The KO file format version this library reads and writes.
pub open spec fn ko_version() -> u8 {
    4
}

/// The header of a Kerbal Object file
#[derive(Debug, Copy, Clone, PartialEq, Eq, Hash, Structural)]
pub struct KOHeader {
    /// The "magic numbers" that identify a KO file
    pub magic: u32,
    /// The specification version number of this Kerbal Object file
    pub version: u8,
    /// The number of headers contained within the section header table
    pub num_headers: u16,
    /// The index of the section header string table
    pub shstrtab_idx: SectionIdx,
}

/// The bytes a KO file header is written as: magic (4), version (1), number of headers (2)
/// and index of the section header string table (2), numbers little-endian.
pub open spec fn ko_header_bytes(h: KOHeader) -> Seq<u8> {
    le_u32(h.magic) + seq![h.version] + le_u16(h.num_headers) + le_u16(h.shstrtab_idx@)
}

/// A KO file begins with the bytes `k`, 1, `o`, `f`, then the version byte 4.
pub proof fn ko_magic_bytes()
    ensures
        le_u32(ko_magic()) == seq!['k' as u8, 1u8, 'o' as u8, 'f' as u8],
        ko_version() == 4,
{
    assert(le_u32(ko_magic()) =~= seq!['k' as u8, 1u8, 'o' as u8, 'f' as u8]);
}

/// What `KOHeader::parse` reads at `pos`, with the position it leaves the reader at: all four
/// fields are read before the magic number and the version are checked.
pub open spec fn decode_ko_header(data: Seq<u8>, pos: int) -> (Result<KOHeader, HeaderParseError>, int) {
    match <u32 as FromBytes>::decode(data, pos) {
        (Err(_), p) => (Err(HeaderParseError::MissingMagicError), p),
        (Ok(magic), p) => match <u8 as FromBytes>::decode(data, p) {
            (Err(_), p) => (Err(HeaderParseError::MissingVersionError), p),
            (Ok(version), p) => match <u16 as FromBytes>::decode(data, p) {
                (Err(_), p) => (Err(HeaderParseError::MissingNumHeaders), p),
                (Ok(num_headers), p) => match <u16 as FromBytes>::decode(data, p) {
                    (Err(_), p) => (Err(HeaderParseError::MissingShStrTabIndex), p),
                    (Ok(idx), p) => if magic != ko_magic() {
                        (Err(HeaderParseError::InvalidMagicError(ko_magic(), magic)), p)
                    } else if version != ko_version() {
                        (Err(HeaderParseError::UnsupportedVersionError(ko_version(), version)), p)
                    } else {
                        (
                            Ok(
                                KOHeader {
                                    magic,
                                    version,
                                    num_headers,
                                    shstrtab_idx: section_idx(idx),
                                },
                            ),
                            p,
                        )
                    },
                },
            },
        },
    }
}

impl KOHeader {
    /// Creates a new Kerbal Object file header
    pub fn new(num_headers: u16, shstrtab_idx: SectionIdx) -> (r: Self)
        ensures
            r == (KOHeader { magic: ko_magic(), version: ko_version(), num_headers, shstrtab_idx }),
    {
        Self { magic: MAGIC_NUMBER, version: FILE_VERSION, num_headers, shstrtab_idx }
    }

    /// Returns the size in bytes of a Kerbal Object file header
    pub fn size() -> (r: usize)
        ensures
            r == 9,
    {
        9
    }

    /// Converts the header to its binary representation and writes it to the provided buffer
    pub fn write(&self, buf: &mut Vec<u8>)
        ensures
            final(buf)@ == old(buf)@ + ko_header_bytes(*self),
    {
        let ghost start = buf@;
        write_u32_le(self.magic, buf);
        buf.push(self.version);
        write_u16_le(self.num_headers, buf);
        write_u16_le(u16::from(self.shstrtab_idx), buf);
        assert(buf@ == start + ko_header_bytes(*self));
    }

    /// Parses a KOHeader from the provided byte buffer
    pub fn parse(source: &mut BufferIterator) -> (r: Result<Self, HeaderParseError>)
        requires
            old(source).wf(),
        ensures
            final(source).wf(),
            final(source).data() == old(source).data(),
            (r, final(source).pos()) == decode_ko_header(old(source).data(), old(source).pos()),
    {
        proof {
            broadcast use group_section_idx;
        }
        let magic = match u32::from_bytes(source) {
            Ok(m) => m,
            Err(_) => {
                return Err(HeaderParseError::MissingMagicError);
            },
        };
        let version = match u8::from_bytes(source) {
            Ok(v) => v,
            Err(_) => {
                return Err(HeaderParseError::MissingVersionError);
            },
        };
        let num_headers = match u16::from_bytes(source) {
            Ok(n) => n,
            Err(_) => {
                return Err(HeaderParseError::MissingNumHeaders);
            },
        };
        let idx = match u16::from_bytes(source) {
            Ok(i) => i,
            Err(_) => {
                return Err(HeaderParseError::MissingShStrTabIndex);
            },
        };
        if magic != MAGIC_NUMBER {
            return Err(HeaderParseError::InvalidMagicError(MAGIC_NUMBER, magic));
        }
        if version != FILE_VERSION {
            return Err(HeaderParseError::UnsupportedVersionError(FILE_VERSION, version));
        }
        Ok(Self { magic, version, num_headers, shstrtab_idx: SectionIdx(idx) })
    }
}

/// A KO file header is written as 9 bytes.
pub proof fn lemma_ko_header_size(h: KOHeader)
    ensures
        ko_header_bytes(h).len() == 9,
{
    lemma_le_u32(h.magic);
    lemma_le_u16(h.num_headers);
    lemma_le_u16(h.shstrtab_idx@);
}

/// Writing a header with the right magic number and version and reading it back gives the
/// same header, and the reader moves past exactly its 9 bytes, whatever stands before and
/// after.
pub proof fn ko_header_round_trip(h: KOHeader, prefix: Seq<u8>, rest: Seq<u8>)
    requires
        h.magic == ko_magic(),
        h.version == ko_version(),
    ensures
        decode_ko_header(prefix + ko_header_bytes(h) + rest, prefix.len() as int) == (
            Ok::<KOHeader, HeaderParseError>(h),
            prefix.len() + 9int,
        ),
{
    broadcast use group_section_idx;

    lemma_ko_header_size(h);
    let data = prefix + ko_header_bytes(h) + rest;
    let n = prefix.len() as int;
    assert(data.subrange(n, n + 4) == le_u32(h.magic));
    assert(data.subrange(n + 5, n + 7) == le_u16(h.num_headers));
    assert(data.subrange(n + 7, n + 9) == le_u16(h.shstrtab_idx@));
    lemma_u32_at(data, n, h.magic);
    lemma_u16_at(data, n + 5, h.num_headers);
    lemma_u16_at(data, n + 7, h.shstrtab_idx@);
    assert(data[n + 4] == h.version);
}

/// An in-memory representation of a KO file
///
/// Can be modified, written, or read.
#[derive(Debug)]
pub struct KOFile {
    header: KOHeader,
    shstrtab: StringTable,
    section_headers: Vec<SectionHeader>,
    str_tabs: Vec<StringTable>,
    sym_tabs: Vec<SymbolTable>,
    data_sections: Vec<DataSection>,
    func_sections: Vec<FuncSection>,
    reld_sections: Vec<ReldSection>,
}

impl KOFile {
    /// The file's header.
    pub closed spec fn header_view(&self) -> KOHeader {
        self.header
    }

    /// The section header string table.
    pub closed spec fn shstrtab_view(&self) -> StringTable {
        self.shstrtab
    }

    /// The section header table.
    pub closed spec fn headers_view(&self) -> Seq<SectionHeader> {
        self.section_headers@
    }

    /// The string tables added, in order.
    pub closed spec fn str_tabs_view(&self) -> Seq<StringTable> {
        self.str_tabs@
    }

    /// The symbol tables added, in order.
    pub closed spec fn sym_tabs_view(&self) -> Seq<SymbolTable> {
        self.sym_tabs@
    }

    /// The data sections added, in order.
    pub closed spec fn data_sections_view(&self) -> Seq<DataSection> {
        self.data_sections@
    }

    /// The function sections added, in order.
    pub closed spec fn func_sections_view(&self) -> Seq<FuncSection> {
        self.func_sections@
    }

    /// The relocation data sections added, in order.
    pub closed spec fn reld_sections_view(&self) -> Seq<ReldSection> {
        self.reld_sections@
    }

    /// What every KO file keeps: the section header string table has a header, and no
    /// section header has an index past `u16::MAX`.
    pub open spec fn wf(&self) -> bool {
        &&& self.shstrtab_view().index_view()@ < self.headers_view().len()
        &&& self.headers_view().len() <= u16::MAX + 1
    }

    /// Whether `other` has the same sections as this file: the same string tables, symbol
    /// tables, data, function and relocation sections, and section header string table.
    pub open spec fn same_sections(&self, other: &KOFile) -> bool {
        &&& other.shstrtab_view() == self.shstrtab_view()
        &&& other.str_tabs_view() == self.str_tabs_view()
        &&& other.sym_tabs_view() == self.sym_tabs_view()
        &&& other.data_sections_view() == self.data_sections_view()
        &&& other.func_sections_view() == self.func_sections_view()
        &&& other.reld_sections_view() == self.reld_sections_view()
    }

    /// Whether `other` only differs from this file in its section header string table.
    pub open spec fn same_but_shstrtab(&self, other: &KOFile) -> bool {
        &&& other.header_view() == self.header_view()
        &&& other.headers_view() == self.headers_view()
        &&& other.str_tabs_view() == self.str_tabs_view()
        &&& other.sym_tabs_view() == self.sym_tabs_view()
        &&& other.data_sections_view() == self.data_sections_view()
        &&& other.func_sections_view() == self.func_sections_view()
        &&& other.reld_sections_view() == self.reld_sections_view()
        &&& other.shstrtab_view().index_view() == self.shstrtab_view().index_view()
    }

    /// Creates a new, empty, Kerbal Object file.
    ///
    /// Creates a new section header table, initialized with a first element that is a Null section,
    /// and a string table that is the section header string table.
    pub fn new() -> (r: Self)
        ensures
            r.wf(),
            r.header_view() == KOHeader::new_spec(2, section_idx(1)),
            r.headers_view() == seq![
                SectionHeader { name_idx: string_idx(0), section_kind: SectionKind::Null, size: 0 },
                SectionHeader { name_idx: string_idx(1), section_kind: SectionKind::StrTab, size: 0 },
            ],
            r.shstrtab_view().strings_view() == seq![Seq::<char>::empty(), ".shstrtab"@],
            r.shstrtab_view().size_view() == 11,
            r.shstrtab_view().index_view() == section_idx(1),
            r.str_tabs_view().len() == 0,
            r.sym_tabs_view().len() == 0,
            r.data_sections_view().len() == 0,
            r.func_sections_view().len() == 0,
            r.reld_sections_view().len() == 0,
    {
        proof {
            broadcast use group_section_idx, group_string_idx;
        }
        // When we create this file, the section header string table will just always be the first section
        let shstrtab_idx = SectionIdx::from(1u16);
        let mut kofile = Self {
            header: KOHeader::new(2, shstrtab_idx),
            shstrtab: StringTable::with_capacity(256, shstrtab_idx),
            section_headers: Vec::with_capacity(4),
            str_tabs: Vec::with_capacity(2),
            sym_tabs: Vec::with_capacity(1),
            data_sections: Vec::with_capacity(1),
            func_sections: Vec::with_capacity(1),
            reld_sections: Vec::with_capacity(1),
        };
        // Add the null entry
        kofile.section_headers.push(SectionHeader::null());
        let name = ".shstrtab";
        proof {
            reveal_strlit(".shstrtab");
            assert(vstd::utf8::is_ascii_chars(name@));
            vstd::utf8::is_ascii_chars_encode_utf8(name@);
            assert(encode_utf8(name@).len() == 9);
        }
        let name_idx = kofile.shstrtab.add(name);
        // The first section will always be the section header string table
        kofile.section_headers.push(SectionHeader::new(name_idx, SectionKind::StrTab));
        kofile
    }

    /// Adds a new string to the section header string table
    pub fn add_section_name(&mut self, name: &str) -> (r: StringIdx)
        requires
            old(self).shstrtab_view().size_view() + encode_utf8(name@).len() + 1 <= u32::MAX,
        ensures
            old(self).same_but_shstrtab(final(self)),
            final(self).shstrtab_view().strings_view() == old(self).shstrtab_view().strings_view().push(
                name@,
            ),
            final(self).shstrtab_view().size_view() == old(self).shstrtab_view().size_view()
                + encode_utf8(name@).len() + 1,
            r@ == old(self).shstrtab_view().strings_view().len() as u32,
    {
        self.shstrtab.add(name)
    }

    /// Gets a section name from the section header string table at the specified index, or
    /// returns None if none exists at that index
    pub fn get_section_name(&self, index: StringIdx) -> (r: Option<&String>)
        ensures
            index@ < self.shstrtab_view().strings_view().len() ==> (r matches Some(s) && s@
                == self.shstrtab_view().strings_view()[index@ as int]),
            index@ >= self.shstrtab_view().strings_view().len() ==> r is None,
    {
        self.shstrtab.get(index)
    }

    /// Returns the name of the section referred to by the index into the
    /// Kerbal Object file's section header table, or None if a section header
    /// at that index doesn't exist
    pub fn get_section_name_by_index(&self, index: SectionIdx) -> (r: Option<&String>)
        ensures
            r is Some <==> section_name(self, index@ as int) is Some,
            r matches Some(s) ==> Some(s@) == section_name(self, index@ as int),
    {
        let i = usize::from(index);
        if i < self.section_headers.len() {
            self.shstrtab.get(self.section_headers[i].name_idx)
        } else {
            None
        }
    }

    /// Adds a new section header to the section header table, and returns the index of the
    /// section header
    ///
    /// There can be at most `u16::MAX + 1` section headers.
    pub fn add_section_header(&mut self, header: SectionHeader) -> (r: SectionIdx)
        requires
            old(self).headers_view().len() <= u16::MAX,
        ensures
            old(self).same_sections(final(self)),
            final(self).header_view() == old(self).header_view(),
            final(self).headers_view() == old(self).headers_view().push(header),
            r@ == old(self).headers_view().len(),
    {
        let index = self.section_headers.len();
        self.section_headers.push(header);
        SectionIdx(index as u16)
    }

    /// Gets the section header at the provided index into the section header table,
    /// or None if none exists at that index
    pub fn get_section_header(&self, index: SectionIdx) -> (r: Option<&SectionHeader>)
        ensures
            index@ < self.headers_view().len() ==> r == Some(&self.headers_view()[index@ as int]),
            index@ >= self.headers_view().len() ==> r is None,
    {
        let i = usize::from(index);
        if i < self.section_headers.len() {
            Some(&self.section_headers[i])
        } else {
            None
        }
    }

    /// Gets the name of the section referred to by the provided section header,
    /// or None if no section with that header is found in this KO file
    pub fn get_header_name(&self, header: &SectionHeader) -> (r: Option<&String>)
        ensures
            header.name_idx@ < self.shstrtab_view().strings_view().len() ==> (r matches Some(s)
                && s@ == self.shstrtab_view().strings_view()[header.name_idx@ as int]),
            header.name_idx@ >= self.shstrtab_view().strings_view().len() ==> r is None,
    {
        self.shstrtab.get(header.name_idx)
    }

    /// Adds a new string table to this Kerbal Object file
    pub fn add_str_tab(&mut self, str_tab: StringTable)
        ensures
            final(self).header_view() == old(self).header_view(),
            final(self).headers_view() == old(self).headers_view(),
            final(self).shstrtab_view() == old(self).shstrtab_view(),
            final(self).str_tabs_view() == old(self).str_tabs_view().push(str_tab),
            final(self).sym_tabs_view() == old(self).sym_tabs_view(),
            final(self).data_sections_view() == old(self).data_sections_view(),
            final(self).func_sections_view() == old(self).func_sections_view(),
            final(self).reld_sections_view() == old(self).reld_sections_view(),
    {
        self.str_tabs.push(str_tab);
    }

    /// Adds a new symbol table to this Kerbal Object file
    pub fn add_sym_tab(&mut self, sym_tab: SymbolTable)
        ensures
            final(self).header_view() == old(self).header_view(),
            final(self).headers_view() == old(self).headers_view(),
            final(self).shstrtab_view() == old(self).shstrtab_view(),
            final(self).str_tabs_view() == old(self).str_tabs_view(),
            final(self).sym_tabs_view() == old(self).sym_tabs_view().push(sym_tab),
            final(self).data_sections_view() == old(self).data_sections_view(),
            final(self).func_sections_view() == old(self).func_sections_view(),
            final(self).reld_sections_view() == old(self).reld_sections_view(),
    {
        self.sym_tabs.push(sym_tab);
    }

    /// Adds a new data section to this Kerbal Object file
    pub fn add_data_section(&mut self, data_section: DataSection)
        ensures
            final(self).header_view() == old(self).header_view(),
            final(self).headers_view() == old(self).headers_view(),
            final(self).shstrtab_view() == old(self).shstrtab_view(),
            final(self).str_tabs_view() == old(self).str_tabs_view(),
            final(self).sym_tabs_view() == old(self).sym_tabs_view(),
            final(self).data_sections_view() == old(self).data_sections_view().push(data_section),
            final(self).func_sections_view() == old(self).func_sections_view(),
            final(self).reld_sections_view() == old(self).reld_sections_view(),
    {
        self.data_sections.push(data_section);
    }

    /// Adds a new function section to this Kerbal Object file
    pub fn add_func_section(&mut self, func_section: FuncSection)
        ensures
            final(self).header_view() == old(self).header_view(),
            final(self).headers_view() == old(self).headers_view(),
            final(self).shstrtab_view() == old(self).shstrtab_view(),
            final(self).str_tabs_view() == old(self).str_tabs_view(),
            final(self).sym_tabs_view() == old(self).sym_tabs_view(),
            final(self).data_sections_view() == old(self).data_sections_view(),
            final(self).func_sections_view() == old(self).func_sections_view().push(func_section),
            final(self).reld_sections_view() == old(self).reld_sections_view(),
    {
        self.func_sections.push(func_section);
    }

    /// Adds a new relocation data section to this Kerbal Object file
    pub fn add_reld_section(&mut self, reld_section: ReldSection)
        ensures
            final(self).header_view() == old(self).header_view(),
            final(self).headers_view() == old(self).headers_view(),
            final(self).shstrtab_view() == old(self).shstrtab_view(),
            final(self).str_tabs_view() == old(self).str_tabs_view(),
            final(self).sym_tabs_view() == old(self).sym_tabs_view(),
            final(self).data_sections_view() == old(self).data_sections_view(),
            final(self).func_sections_view() == old(self).func_sections_view(),
            final(self).reld_sections_view() == old(self).reld_sections_view().push(reld_section),
    {
        self.reld_sections.push(reld_section);
    }

    /// Returns an iterator over all of the string tables in this Kerbal Object file
    pub fn str_tabs(&self) -> (r: std::slice::Iter<'_, StringTable>)
        ensures
            vstd::std_specs::slice::into_iter_elts(r) == self.str_tabs_view(),
    {
        self.str_tabs.as_slice().iter()
    }

    /// Returns an iterator over all of the symbol tables in this Kerbal Object file
    pub fn sym_tabs(&self) -> (r: std::slice::Iter<'_, SymbolTable>)
        ensures
            vstd::std_specs::slice::into_iter_elts(r) == self.sym_tabs_view(),
    {
        self.sym_tabs.as_slice().iter()
    }

    /// Returns an iterator over all of the data sections in this Kerbal Object file
    pub fn data_sections(&self) -> (r: std::slice::Iter<'_, DataSection>)
        ensures
            vstd::std_specs::slice::into_iter_elts(r) == self.data_sections_view(),
    {
        self.data_sections.as_slice().iter()
    }

    /// Returns an iterator over all of the function sections in this Kerbal Object file
    pub fn func_sections(&self) -> (r: std::slice::Iter<'_, FuncSection>)
        ensures
            vstd::std_specs::slice::into_iter_elts(r) == self.func_sections_view(),
    {
        self.func_sections.as_slice().iter()
    }

    /// Returns an iterator over all of the relocation data sections in this Kerbal Object file
    pub fn reld_sections(&self) -> (r: std::slice::Iter<'_, ReldSection>)
        ensures
            vstd::std_specs::slice::into_iter_elts(r) == self.reld_sections_view(),
    {
        self.reld_sections.as_slice().iter()
    }

    /// Adds a new section header of the provided name and section kind to this Kerbal
    /// Object file, and returns the index into the section header table of this new header
    pub fn new_section_header(&mut self, name: &str, kind: SectionKind) -> (r: SectionIdx)
        requires
            old(self).shstrtab_view().size_view() + encode_utf8(name@).len() + 1 <= u32::MAX,
            old(self).headers_view().len() <= u16::MAX,
        ensures
            final(self).header_view() == old(self).header_view(),
            final(self).shstrtab_view().strings_view() == old(self).shstrtab_view().strings_view().push(
                name@,
            ),
            final(self).shstrtab_view().size_view() == old(self).shstrtab_view().size_view()
                + encode_utf8(name@).len() + 1,
            final(self).shstrtab_view().index_view() == old(self).shstrtab_view().index_view(),
            final(self).headers_view() == old(self).headers_view().push(
                SectionHeader {
                    name_idx: string_idx(old(self).shstrtab_view().strings_view().len() as u32),
                    section_kind: kind,
                    size: 0,
                },
            ),
            final(self).str_tabs_view() == old(self).str_tabs_view(),
            final(self).sym_tabs_view() == old(self).sym_tabs_view(),
            final(self).data_sections_view() == old(self).data_sections_view(),
            final(self).func_sections_view() == old(self).func_sections_view(),
            final(self).reld_sections_view() == old(self).reld_sections_view(),
            r@ == old(self).headers_view().len(),
    {
        proof {
            broadcast use group_string_idx;
        }
        let name_idx = self.add_section_name(name);
        let header = SectionHeader::new(name_idx, kind);
        self.add_section_header(header)
    }

    /// Returns the index into the section header table of the section with the provided name,
    /// or None if there is no such section
    pub fn get_section_index_by_name(&self, name: &str) -> (r: Option<SectionIdx>)
        requires
            self.wf(),
        ensures
            r is None ==> forall|i: int|
                0 <= i < self.headers_view().len() ==> section_name(self, i) != Some(name@),
            r matches Some(idx) ==> {
                &&& section_name(self, idx@ as int) == Some(name@)
                &&& forall|i: int| 0 <= i < idx@ ==> section_name(self, i) != Some(name@)
            },
    {
        let mut i: usize = 0;
        while i < self.section_headers.len()
            invariant
                self.wf(),
                i <= self.section_headers@.len(),
                forall|j: int| 0 <= j < i ==> section_name(self, j) != Some(name@),
            decreases self.section_headers@.len() - i,
        {
            match self.shstrtab.get(self.section_headers[i].name_idx) {
                Some(sh_name) => {
                    if crate::opcode::str_eq(sh_name.as_str(), name) {
                        return Some(SectionIdx(i as u16));
                    }
                },
                None => {},
            }
            i = i + 1;
        }
        None
    }

    /// The Kerbal Object file header
    pub fn header(&self) -> (r: KOHeader)
        ensures
            r == self.header_view(),
    {
        self.header
    }

    /// Returns an iterator over all section headers in the Kerbal Object file's section
    /// header table
    pub fn section_headers(&self) -> (r: std::slice::Iter<'_, SectionHeader>)
        ensures
            vstd::std_specs::slice::into_iter_elts(r) == self.headers_view(),
    {
        self.section_headers.as_slice().iter()
    }

    /// Returns the number of sections registered in the section header table. This will always
    /// be at least 1, because of the Null section present in all valid section header tables.
    pub fn section_header_count(&self) -> (r: usize)
        ensures
            r == self.headers_view().len(),
    {
        self.section_headers.len()
    }

    /// The index into the section header table of the section header string table
    pub fn shstrtab_index(&self) -> (r: SectionIdx)
        ensures
            r == self.shstrtab_view().index_view(),
    {
        self.shstrtab.section_index()
    }
}

/// The name of the section whose header is at `i`: the string its name index refers to in
/// the section header string table, if there is such a header and such a string.
pub open spec fn section_name(f: &KOFile, i: int) -> Option<Seq<char>> {
    if 0 <= i < f.headers_view().len() && f.headers_view()[i].name_idx@
        < f.shstrtab_view().strings_view().len() {
        Some(f.shstrtab_view().strings_view()[f.headers_view()[i].name_idx@ as int])
    } else {
        None
    }
}


/// Whether the section at position `k` of those with the header indices `idxs` is the first
/// one called `name`.
pub open spec fn is_first_named(f: &KOFile, idxs: Seq<SectionIdx>, name: Seq<char>, k: int) -> bool {
    &&& 0 <= k < idxs.len()
    &&& section_name(f, idxs[k]@ as int) == Some(name)
    &&& forall|j: int| 0 <= j < k ==> section_name(f, idxs[j]@ as int) != Some(name)
}

/// Whether none of the sections with the header indices `idxs` is called `name`.
pub open spec fn none_named(f: &KOFile, idxs: Seq<SectionIdx>, name: Seq<char>) -> bool {
    forall|j: int| 0 <= j < idxs.len() ==> section_name(f, idxs[j]@ as int) != Some(name)
}

impl KOFile {
    /// The header indices of the StringTables of this file, in order.
    pub open spec fn str_tab_indices(&self) -> Seq<SectionIdx> {
        self.str_tabs_view().map_values(|t: StringTable| t.index_view())
    }

    /// Creates a new StringTable, and adds a new entry for it in the section
    /// header table with the provided name.
    ///
    /// Returns the new StringTable
    pub fn new_strtab(&mut self, name: &str) -> (r: StringTable)
        requires
            old(self).shstrtab_view().size_view() + encode_utf8(name@).len() + 1 <= u32::MAX,
            old(self).headers_view().len() <= u16::MAX,
        ensures
            final(self).header_view() == old(self).header_view(),
            final(self).shstrtab_view().strings_view() == old(self).shstrtab_view().strings_view().push(
                name@,
            ),
            final(self).shstrtab_view().size_view() == old(self).shstrtab_view().size_view()
                + encode_utf8(name@).len() + 1,
            final(self).shstrtab_view().index_view() == old(self).shstrtab_view().index_view(),
            final(self).headers_view() == old(self).headers_view().push(
                SectionHeader {
                    name_idx: string_idx(old(self).shstrtab_view().strings_view().len() as u32),
                    section_kind: SectionKind::StrTab,
                    size: 0,
                },
            ),
            final(self).str_tabs_view() == old(self).str_tabs_view(),
            final(self).sym_tabs_view() == old(self).sym_tabs_view(),
            final(self).data_sections_view() == old(self).data_sections_view(),
            final(self).func_sections_view() == old(self).func_sections_view(),
            final(self).reld_sections_view() == old(self).reld_sections_view(),
            r.strings_view() == seq![Seq::<char>::empty()],
            r.size_view() == 1,
            r.index_view()@ == old(self).headers_view().len(),
    {
        let sh_index = self.new_section_header(name, SectionKind::StrTab);
        StringTable::with_capacity(4, sh_index)
    }

    /// The position of the first StringTable whose section is called `name`.
    fn str_tab_position(&self, name: &str) -> (r: Option<usize>)
        ensures
            r is None ==> none_named(self, self.str_tab_indices(), name@),
            r matches Some(k) ==> is_first_named(self, self.str_tab_indices(), name@, k as int),
    {
        let mut i: usize = 0;
        while i < self.str_tabs.len()
            invariant
                i <= self.str_tabs@.len(),
                forall|j: int|
                    0 <= j < i ==> section_name(self, self.str_tab_indices()[j]@ as int) != Some(name@),
            decreases self.str_tabs@.len() - i,
        {
            match self.get_section_name_by_index(self.str_tabs[i].section_index()) {
                Some(s) => {
                    if crate::opcode::str_eq(s.as_str(), name) {
                        return Some(i);
                    }
                },
                None => {},
            }
            i = i + 1;
        }
        None
    }

    /// Gets a reference to the StringTable with the provided name,
    /// or None if a StringTable by that name doesn't exist
    pub fn str_tab_by_name(&self, name: &str) -> (r: Option<&StringTable>)
        ensures
            r is None ==> none_named(self, self.str_tab_indices(), name@),
            r matches Some(t) ==> exists|k: int|
                is_first_named(self, self.str_tab_indices(), name@, k) && *t == self.str_tabs_view()[k],
    {
        match self.str_tab_position(name) {
            Some(k) => Some(&self.str_tabs[k]),
            None => None,
        }
    }

    /// Gets a mutable reference to the StringTable with the provided name,
    /// or None if a StringTable by that name doesn't exist
    pub fn str_tab_by_name_mut(&mut self, name: &str) -> (r: Option<&mut StringTable>)
        ensures
            r is None ==> none_named(old(self), old(self).str_tab_indices(), name@)
                && *final(self) == *old(self),
            r matches Some(t) ==> exists|k: int|
                is_first_named(old(self), old(self).str_tab_indices(), name@, k) && *t
                    == old(self).str_tabs_view()[k] && final(self).str_tabs_view()
                    == old(self).str_tabs_view().update(k, *final(t)),
            r is Some ==> final(self).header_view() == old(self).header_view(),
            r is Some ==> final(self).headers_view() == old(self).headers_view(),
            r is Some ==> final(self).shstrtab_view() == old(self).shstrtab_view(),
            r is Some ==> final(self).sym_tabs_view() == old(self).sym_tabs_view(),
            r is Some ==> final(self).data_sections_view() == old(self).data_sections_view(),
            r is Some ==> final(self).func_sections_view() == old(self).func_sections_view(),
            r is Some ==> final(self).reld_sections_view() == old(self).reld_sections_view(),
    {
        match self.str_tab_position(name) {
            Some(k) => Some(&mut self.str_tabs[k]),
            None => None,
        }
    }

    /// The header indices of the SymbolTables of this file, in order.
    pub open spec fn sym_tab_indices(&self) -> Seq<SectionIdx> {
        self.sym_tabs_view().map_values(|t: SymbolTable| t.index_view())
    }

    /// Creates a new SymbolTable, and adds a new entry for it in the section
    /// header table with the provided name.
    ///
    /// Returns the new SymbolTable
    pub fn new_symtab(&mut self, name: &str) -> (r: SymbolTable)
        requires
            old(self).shstrtab_view().size_view() + encode_utf8(name@).len() + 1 <= u32::MAX,
            old(self).headers_view().len() <= u16::MAX,
        ensures
            final(self).header_view() == old(self).header_view(),
            final(self).shstrtab_view().strings_view() == old(self).shstrtab_view().strings_view().push(
                name@,
            ),
            final(self).shstrtab_view().size_view() == old(self).shstrtab_view().size_view()
                + encode_utf8(name@).len() + 1,
            final(self).shstrtab_view().index_view() == old(self).shstrtab_view().index_view(),
            final(self).headers_view() == old(self).headers_view().push(
                SectionHeader {
                    name_idx: string_idx(old(self).shstrtab_view().strings_view().len() as u32),
                    section_kind: SectionKind::SymTab,
                    size: 0,
                },
            ),
            final(self).str_tabs_view() == old(self).str_tabs_view(),
            final(self).sym_tabs_view() == old(self).sym_tabs_view(),
            final(self).data_sections_view() == old(self).data_sections_view(),
            final(self).func_sections_view() == old(self).func_sections_view(),
            final(self).reld_sections_view() == old(self).reld_sections_view(),
            r.symbols_view() == Seq::<crate::ko::symbols::KOSymbol>::empty(),
            r.size_view() == 0,
            r.index_view()@ == old(self).headers_view().len(),
    {
        let sh_index = self.new_section_header(name, SectionKind::SymTab);
        SymbolTable::with_capacity(4, sh_index)
    }

    /// The position of the first SymbolTable whose section is called `name`.
    fn sym_tab_position(&self, name: &str) -> (r: Option<usize>)
        ensures
            r is None ==> none_named(self, self.sym_tab_indices(), name@),
            r matches Some(k) ==> is_first_named(self, self.sym_tab_indices(), name@, k as int),
    {
        let mut i: usize = 0;
        while i < self.sym_tabs.len()
            invariant
                i <= self.sym_tabs@.len(),
                forall|j: int|
                    0 <= j < i ==> section_name(self, self.sym_tab_indices()[j]@ as int) != Some(name@),
            decreases self.sym_tabs@.len() - i,
        {
            match self.get_section_name_by_index(self.sym_tabs[i].section_index()) {
                Some(s) => {
                    if crate::opcode::str_eq(s.as_str(), name) {
                        return Some(i);
                    }
                },
                None => {},
            }
            i = i + 1;
        }
        None
    }

    /// Gets a reference to the SymbolTable with the provided name,
    /// or None if a SymbolTable by that name doesn't exist
    pub fn sym_tab_by_name(&self, name: &str) -> (r: Option<&SymbolTable>)
        ensures
            r is None ==> none_named(self, self.sym_tab_indices(), name@),
            r matches Some(t) ==> exists|k: int|
                is_first_named(self, self.sym_tab_indices(), name@, k) && *t == self.sym_tabs_view()[k],
    {
        match self.sym_tab_position(name) {
            Some(k) => Some(&self.sym_tabs[k]),
            None => None,
        }
    }

    /// Gets a mutable reference to the SymbolTable with the provided name,
    /// or None if a SymbolTable by that name doesn't exist
    pub fn sym_tab_by_name_mut(&mut self, name: &str) -> (r: Option<&mut SymbolTable>)
        ensures
            r is None ==> none_named(old(self), old(self).sym_tab_indices(), name@)
                && *final(self) == *old(self),
            r matches Some(t) ==> exists|k: int|
                is_first_named(old(self), old(self).sym_tab_indices(), name@, k) && *t
                    == old(self).sym_tabs_view()[k] && final(self).sym_tabs_view()
                    == old(self).sym_tabs_view().update(k, *final(t)),
            r is Some ==> final(self).header_view() == old(self).header_view(),
            r is Some ==> final(self).headers_view() == old(self).headers_view(),
            r is Some ==> final(self).shstrtab_view() == old(self).shstrtab_view(),
            r is Some ==> final(self).str_tabs_view() == old(self).str_tabs_view(),
            r is Some ==> final(self).data_sections_view() == old(self).data_sections_view(),
            r is Some ==> final(self).func_sections_view() == old(self).func_sections_view(),
            r is Some ==> final(self).reld_sections_view() == old(self).reld_sections_view(),
    {
        match self.sym_tab_position(name) {
            Some(k) => Some(&mut self.sym_tabs[k]),
            None => None,
        }
    }

    /// The header indices of the DataSections of this file, in order.
    pub open spec fn data_section_indices(&self) -> Seq<SectionIdx> {
        self.data_sections_view().map_values(|t: DataSection| t.index_view())
    }

    /// Creates a new DataSection, and adds a new entry for it in the section
    /// header table with the provided name.
    ///
    /// Returns the new DataSection
    pub fn new_data_section(&mut self, name: &str) -> (r: DataSection)
        requires
            old(self).shstrtab_view().size_view() + encode_utf8(name@).len() + 1 <= u32::MAX,
            old(self).headers_view().len() <= u16::MAX,
        ensures
            final(self).header_view() == old(self).header_view(),
            final(self).shstrtab_view().strings_view() == old(self).shstrtab_view().strings_view().push(
                name@,
            ),
            final(self).shstrtab_view().size_view() == old(self).shstrtab_view().size_view()
                + encode_utf8(name@).len() + 1,
            final(self).shstrtab_view().index_view() == old(self).shstrtab_view().index_view(),
            final(self).headers_view() == old(self).headers_view().push(
                SectionHeader {
                    name_idx: string_idx(old(self).shstrtab_view().strings_view().len() as u32),
                    section_kind: SectionKind::Data,
                    size: 0,
                },
            ),
            final(self).str_tabs_view() == old(self).str_tabs_view(),
            final(self).sym_tabs_view() == old(self).sym_tabs_view(),
            final(self).data_sections_view() == old(self).data_sections_view(),
            final(self).func_sections_view() == old(self).func_sections_view(),
            final(self).reld_sections_view() == old(self).reld_sections_view(),
            r.values_view() == Seq::<crate::value::KOSValueView>::empty(),
            r.size_view() == 0,
            r.index_view()@ == old(self).headers_view().len(),
    {
        let sh_index = self.new_section_header(name, SectionKind::Data);
        DataSection::with_capacity(4, sh_index)
    }

    /// The position of the first DataSection whose section is called `name`.
    fn data_section_position(&self, name: &str) -> (r: Option<usize>)
        ensures
            r is None ==> none_named(self, self.data_section_indices(), name@),
            r matches Some(k) ==> is_first_named(self, self.data_section_indices(), name@, k as int),
    {
        let mut i: usize = 0;
        while i < self.data_sections.len()
            invariant
                i <= self.data_sections@.len(),
                forall|j: int|
                    0 <= j < i ==> section_name(self, self.data_section_indices()[j]@ as int) != Some(name@),
            decreases self.data_sections@.len() - i,
        {
            match self.get_section_name_by_index(self.data_sections[i].section_index()) {
                Some(s) => {
                    if crate::opcode::str_eq(s.as_str(), name) {
                        return Some(i);
                    }
                },
                None => {},
            }
            i = i + 1;
        }
        None
    }

    /// Gets a reference to the DataSection with the provided name,
    /// or None if a DataSection by that name doesn't exist
    pub fn data_section_by_name(&self, name: &str) -> (r: Option<&DataSection>)
        ensures
            r is None ==> none_named(self, self.data_section_indices(), name@),
            r matches Some(t) ==> exists|k: int|
                is_first_named(self, self.data_section_indices(), name@, k) && *t == self.data_sections_view()[k],
    {
        match self.data_section_position(name) {
            Some(k) => Some(&self.data_sections[k]),
            None => None,
        }
    }

    /// Gets a mutable reference to the DataSection with the provided name,
    /// or None if a DataSection by that name doesn't exist
    pub fn data_section_by_name_mut(&mut self, name: &str) -> (r: Option<&mut DataSection>)
        ensures
            r is None ==> none_named(old(self), old(self).data_section_indices(), name@)
                && *final(self) == *old(self),
            r matches Some(t) ==> exists|k: int|
                is_first_named(old(self), old(self).data_section_indices(), name@, k) && *t
                    == old(self).data_sections_view()[k] && final(self).data_sections_view()
                    == old(self).data_sections_view().update(k, *final(t)),
            r is Some ==> final(self).header_view() == old(self).header_view(),
            r is Some ==> final(self).headers_view() == old(self).headers_view(),
            r is Some ==> final(self).shstrtab_view() == old(self).shstrtab_view(),
            r is Some ==> final(self).str_tabs_view() == old(self).str_tabs_view(),
            r is Some ==> final(self).sym_tabs_view() == old(self).sym_tabs_view(),
            r is Some ==> final(self).func_sections_view() == old(self).func_sections_view(),
            r is Some ==> final(self).reld_sections_view() == old(self).reld_sections_view(),
    {
        match self.data_section_position(name) {
            Some(k) => Some(&mut self.data_sections[k]),
            None => None,
        }
    }

    /// The header indices of the FuncSections of this file, in order.
    pub open spec fn func_section_indices(&self) -> Seq<SectionIdx> {
        self.func_sections_view().map_values(|t: FuncSection| t.index_view())
    }

    /// Creates a new FuncSection, and adds a new entry for it in the section
    /// header table with the provided name.
    ///
    /// Returns the new FuncSection
    pub fn new_func_section(&mut self, name: &str) -> (r: FuncSection)
        requires
            old(self).shstrtab_view().size_view() + encode_utf8(name@).len() + 1 <= u32::MAX,
            old(self).headers_view().len() <= u16::MAX,
        ensures
            final(self).header_view() == old(self).header_view(),
            final(self).shstrtab_view().strings_view() == old(self).shstrtab_view().strings_view().push(
                name@,
            ),
            final(self).shstrtab_view().size_view() == old(self).shstrtab_view().size_view()
                + encode_utf8(name@).len() + 1,
            final(self).shstrtab_view().index_view() == old(self).shstrtab_view().index_view(),
            final(self).headers_view() == old(self).headers_view().push(
                SectionHeader {
                    name_idx: string_idx(old(self).shstrtab_view().strings_view().len() as u32),
                    section_kind: SectionKind::Func,
                    size: 0,
                },
            ),
            final(self).str_tabs_view() == old(self).str_tabs_view(),
            final(self).sym_tabs_view() == old(self).sym_tabs_view(),
            final(self).data_sections_view() == old(self).data_sections_view(),
            final(self).func_sections_view() == old(self).func_sections_view(),
            final(self).reld_sections_view() == old(self).reld_sections_view(),
            r.instrs_view() == Seq::<Instr>::empty(),
            r.size_view() == 0,
            r.index_view()@ == old(self).headers_view().len(),
    {
        let sh_index = self.new_section_header(name, SectionKind::Func);
        FuncSection::with_capacity(4, sh_index)
    }

    /// The position of the first FuncSection whose section is called `name`.
    fn func_section_position(&self, name: &str) -> (r: Option<usize>)
        ensures
            r is None ==> none_named(self, self.func_section_indices(), name@),
            r matches Some(k) ==> is_first_named(self, self.func_section_indices(), name@, k as int),
    {
        let mut i: usize = 0;
        while i < self.func_sections.len()
            invariant
                i <= self.func_sections@.len(),
                forall|j: int|
                    0 <= j < i ==> section_name(self, self.func_section_indices()[j]@ as int) != Some(name@),
            decreases self.func_sections@.len() - i,
        {
            match self.get_section_name_by_index(self.func_sections[i].section_index()) {
                Some(s) => {
                    if crate::opcode::str_eq(s.as_str(), name) {
                        return Some(i);
                    }
                },
                None => {},
            }
            i = i + 1;
        }
        None
    }

    /// Gets a reference to the FuncSection with the provided name,
    /// or None if a FuncSection by that name doesn't exist
    pub fn func_section_by_name(&self, name: &str) -> (r: Option<&FuncSection>)
        ensures
            r is None ==> none_named(self, self.func_section_indices(), name@),
            r matches Some(t) ==> exists|k: int|
                is_first_named(self, self.func_section_indices(), name@, k) && *t == self.func_sections_view()[k],
    {
        match self.func_section_position(name) {
            Some(k) => Some(&self.func_sections[k]),
            None => None,
        }
    }

    /// Gets a mutable reference to the FuncSection with the provided name,
    /// or None if a FuncSection by that name doesn't exist
    pub fn func_section_by_name_mut(&mut self, name: &str) -> (r: Option<&mut FuncSection>)
        ensures
            r is None ==> none_named(old(self), old(self).func_section_indices(), name@)
                && *final(self) == *old(self),
            r matches Some(t) ==> exists|k: int|
                is_first_named(old(self), old(self).func_section_indices(), name@, k) && *t
                    == old(self).func_sections_view()[k] && final(self).func_sections_view()
                    == old(self).func_sections_view().update(k, *final(t)),
            r is Some ==> final(self).header_view() == old(self).header_view(),
            r is Some ==> final(self).headers_view() == old(self).headers_view(),
            r is Some ==> final(self).shstrtab_view() == old(self).shstrtab_view(),
            r is Some ==> final(self).str_tabs_view() == old(self).str_tabs_view(),
            r is Some ==> final(self).sym_tabs_view() == old(self).sym_tabs_view(),
            r is Some ==> final(self).data_sections_view() == old(self).data_sections_view(),
            r is Some ==> final(self).reld_sections_view() == old(self).reld_sections_view(),
    {
        match self.func_section_position(name) {
            Some(k) => Some(&mut self.func_sections[k]),
            None => None,
        }
    }

    /// The header indices of the ReldSections of this file, in order.
    pub open spec fn reld_section_indices(&self) -> Seq<SectionIdx> {
        self.reld_sections_view().map_values(|t: ReldSection| t.index_view())
    }

    /// Creates a new ReldSection, and adds a new entry for it in the section
    /// header table with the provided name.
    ///
    /// Returns the new ReldSection
    pub fn new_reld_section(&mut self, name: &str) -> (r: ReldSection)
        requires
            old(self).shstrtab_view().size_view() + encode_utf8(name@).len() + 1 <= u32::MAX,
            old(self).headers_view().len() <= u16::MAX,
        ensures
            final(self).header_view() == old(self).header_view(),
            final(self).shstrtab_view().strings_view() == old(self).shstrtab_view().strings_view().push(
                name@,
            ),
            final(self).shstrtab_view().size_view() == old(self).shstrtab_view().size_view()
                + encode_utf8(name@).len() + 1,
            final(self).shstrtab_view().index_view() == old(self).shstrtab_view().index_view(),
            final(self).headers_view() == old(self).headers_view().push(
                SectionHeader {
                    name_idx: string_idx(old(self).shstrtab_view().strings_view().len() as u32),
                    section_kind: SectionKind::Reld,
                    size: 0,
                },
            ),
            final(self).str_tabs_view() == old(self).str_tabs_view(),
            final(self).sym_tabs_view() == old(self).sym_tabs_view(),
            final(self).data_sections_view() == old(self).data_sections_view(),
            final(self).func_sections_view() == old(self).func_sections_view(),
            final(self).reld_sections_view() == old(self).reld_sections_view(),
            r.entries_view() == Seq::<crate::ko::symbols::ReldEntryView>::empty(),
            r.size_view() == 0,
            r.index_view()@ == old(self).headers_view().len(),
    {
        let sh_index = self.new_section_header(name, SectionKind::Reld);
        ReldSection::with_capacity(4, sh_index)
    }

    /// The position of the first ReldSection whose section is called `name`.
    fn reld_section_position(&self, name: &str) -> (r: Option<usize>)
        ensures
            r is None ==> none_named(self, self.reld_section_indices(), name@),
            r matches Some(k) ==> is_first_named(self, self.reld_section_indices(), name@, k as int),
    {
        let mut i: usize = 0;
        while i < self.reld_sections.len()
            invariant
                i <= self.reld_sections@.len(),
                forall|j: int|
                    0 <= j < i ==> section_name(self, self.reld_section_indices()[j]@ as int) != Some(name@),
            decreases self.reld_sections@.len() - i,
        {
            match self.get_section_name_by_index(self.reld_sections[i].section_index()) {
                Some(s) => {
                    if crate::opcode::str_eq(s.as_str(), name) {
                        return Some(i);
                    }
                },
                None => {},
            }
            i = i + 1;
        }
        None
    }

    /// Gets a reference to the ReldSection with the provided name,
    /// or None if a ReldSection by that name doesn't exist
    pub fn reld_section_by_name(&self, name: &str) -> (r: Option<&ReldSection>)
        ensures
            r is None ==> none_named(self, self.reld_section_indices(), name@),
            r matches Some(t) ==> exists|k: int|
                is_first_named(self, self.reld_section_indices(), name@, k) && *t == self.reld_sections_view()[k],
    {
        match self.reld_section_position(name) {
            Some(k) => Some(&self.reld_sections[k]),
            None => None,
        }
    }

    /// Gets a mutable reference to the ReldSection with the provided name,
    /// or None if a ReldSection by that name doesn't exist
    pub fn reld_section_by_name_mut(&mut self, name: &str) -> (r: Option<&mut ReldSection>)
        ensures
            r is None ==> none_named(old(self), old(self).reld_section_indices(), name@)
                && *final(self) == *old(self),
            r matches Some(t) ==> exists|k: int|
                is_first_named(old(self), old(self).reld_section_indices(), name@, k) && *t
                    == old(self).reld_sections_view()[k] && final(self).reld_sections_view()
                    == old(self).reld_sections_view().update(k, *final(t)),
            r is Some ==> final(self).header_view() == old(self).header_view(),
            r is Some ==> final(self).headers_view() == old(self).headers_view(),
            r is Some ==> final(self).shstrtab_view() == old(self).shstrtab_view(),
            r is Some ==> final(self).str_tabs_view() == old(self).str_tabs_view(),
            r is Some ==> final(self).sym_tabs_view() == old(self).sym_tabs_view(),
            r is Some ==> final(self).data_sections_view() == old(self).data_sections_view(),
            r is Some ==> final(self).func_sections_view() == old(self).func_sections_view(),
    {
        match self.reld_section_position(name) {
            Some(k) => Some(&mut self.reld_sections[k]),
            None => None,
        }
    }

}

/// The kind, header index and size of every section of a file, in the order in which
/// `validate` updates their headers: string tables, symbol tables, data sections, function
/// sections, then relocation data sections, each kind in the order they were added.
pub open spec fn sections_to_update(f: &KOFile) -> Seq<(SectionKind, u16, u32)> {
    f.str_tabs_view().map_values(
        |t: StringTable| (SectionKind::StrTab, t.index_view()@, t.size_view()),
    ) + f.sym_tabs_view().map_values(
        |t: SymbolTable| (SectionKind::SymTab, t.index_view()@, t.size_view()),
    ) + f.data_sections_view().map_values(
        |t: DataSection| (SectionKind::Data, t.index_view()@, t.size_view()),
    ) + f.func_sections_view().map_values(
        |t: FuncSection| (SectionKind::Func, t.index_view()@, t.size_view()),
    ) + f.reld_sections_view().map_values(
        |t: ReldSection| (SectionKind::Reld, t.index_view()@, t.size_view()),
    )
}

/// The header `h` with its size set to `size`.
pub open spec fn with_size(h: SectionHeader, size: u32) -> SectionHeader {
    SectionHeader { name_idx: h.name_idx, section_kind: h.section_kind, size }
}

/// Sets the size of the header of each section of `list` in turn, stopping at the first
/// section without a header or whose header is of another kind.
pub open spec fn apply_updates(headers: Seq<SectionHeader>, list: Seq<(SectionKind, u16, u32)>) -> (
    Seq<SectionHeader>,
    Option<ValidationErrorView>,
)
    decreases list.len(),
{
    if list.len() == 0 {
        (headers, None)
    } else {
        let (kind, i, size) = list[0];
        if i >= headers.len() {
            (headers, Some(ValidationErrorView::InvalidSectionIndexError(kind, i)))
        } else if headers[i as int].section_kind != kind {
            (
                headers,
                Some(
                    ValidationErrorView::SectionKindMismatchError(
                        kind,
                        i,
                        headers[i as int].section_kind,
                    ),
                ),
            )
        } else {
            apply_updates(headers.update(i as int, with_size(headers[i as int], size)), list.drop_first())
        }
    }
}

/// Checks the headers from `i` on: each must name a string of `strings` and be the header
/// of one of the sections whose header indices are `listed`.
pub open spec fn check_headers(
    headers: Seq<SectionHeader>,
    listed: Seq<u16>,
    strings: Seq<Seq<char>>,
    i: int,
) -> Result<(), ValidationErrorView>
    decreases headers.len() - i,
{
    if i >= headers.len() || i < 0 {
        Ok(())
    } else {
        let h = headers[i];
        if h.name_idx@ >= strings.len() {
            Err(
                ValidationErrorView::InvalidSectionHeaderNameIndexError(
                    i as u16,
                    h.section_kind,
                    h.name_idx@ as usize,
                ),
            )
        } else if !listed.contains(i as u16) {
            Err(
                ValidationErrorView::InvalidSectionHeaderError(
                    i as u16,
                    h.section_kind,
                    strings[h.name_idx@ as int],
                ),
            )
        } else {
            check_headers(headers, listed, strings, i + 1)
        }
    }
}

/// The section headers that `validate` leaves in `f`: the section header string table's size
/// is recorded, then the size of each section in turn, and whether that went wrong.
pub open spec fn validated_headers(f: &KOFile) -> (Seq<SectionHeader>, Option<ValidationErrorView>) {
    let shi = f.shstrtab_view().index_view()@ as int;
    let h0 = f.headers_view().update(shi, with_size(f.headers_view()[shi], f.shstrtab_view().size_view()));
    apply_updates(h0, sections_to_update(f))
}

/// What `validate` concludes of `f`: the first section without a proper header, or the first
/// header (after the null one) without a name or without a section.
pub open spec fn validation_outcome(f: &KOFile) -> Result<(), ValidationErrorView> {
    match validated_headers(f) {
        (_, Some(e)) => Err(e),
        (hs, None) => check_headers(
            hs,
            seq![f.shstrtab_view().index_view()@] + sections_to_update(f).map_values(
                |e: (SectionKind, u16, u32)| e.1,
            ),
            f.shstrtab_view().strings_view(),
            1,
        ),
    }
}

/// Whether `g` is what `validate` makes of `f`: a fresh header that counts the section
/// headers, the headers of `validated_headers`, and the same sections.
pub open spec fn validated_file(f: &KOFile, g: &KOFile) -> bool {
    &&& g.header_view() == KOHeader::new_spec(
        f.headers_view().len() as u16,
        f.shstrtab_view().index_view(),
    )
    &&& g.headers_view() == validated_headers(f).0
    &&& f.same_sections(g)
    &&& g.wf()
}

impl KOFile {
    /// The kind, header index and size of every section, in the order of `sections_to_update`.
    fn sections_list(&self) -> (r: Vec<(SectionKind, SectionIdx, u32)>)
        ensures
            r@.map_values(|e: (SectionKind, SectionIdx, u32)| (e.0, e.1@, e.2))
                == sections_to_update(self),
    {
        let ghost full = sections_to_update(self);
        let mut r: Vec<(SectionKind, SectionIdx, u32)> = Vec::new();
        let mut offset: usize = 0;
        let mut i: usize = 0;
        while i < self.str_tabs.len()
            invariant
                full == sections_to_update(self),
                i <= self.str_tabs@.len(),
                offset == 0,
                r@.len() == offset + i,
                forall|j: int|
                    0 <= j < r@.len() ==> (#[trigger] r@[j].0, r@[j].1@, r@[j].2) == full[j],
            decreases self.str_tabs@.len() - i,
        {
            let t = &self.str_tabs[i];
            r.push((SectionKind::StrTab, t.section_index(), t.size()));
            i = i + 1;
        }
        offset = r.len();
        let mut i: usize = 0;
        while i < self.sym_tabs.len()
            invariant
                full == sections_to_update(self),
                i <= self.sym_tabs@.len(),
                offset == self.str_tabs_view().len(),
                r@.len() == offset + i,
                forall|j: int|
                    0 <= j < r@.len() ==> (#[trigger] r@[j].0, r@[j].1@, r@[j].2) == full[j],
            decreases self.sym_tabs@.len() - i,
        {
            let t = &self.sym_tabs[i];
            r.push((SectionKind::SymTab, t.section_index(), t.size()));
            i = i + 1;
        }
        offset = r.len();
        let mut i: usize = 0;
        while i < self.data_sections.len()
            invariant
                full == sections_to_update(self),
                i <= self.data_sections@.len(),
                offset == self.str_tabs_view().len() + self.sym_tabs_view().len(),
                r@.len() == offset + i,
                forall|j: int|
                    0 <= j < r@.len() ==> (#[trigger] r@[j].0, r@[j].1@, r@[j].2) == full[j],
            decreases self.data_sections@.len() - i,
        {
            let t = &self.data_sections[i];
            r.push((SectionKind::Data, t.section_index(), t.size()));
            i = i + 1;
        }
        offset = r.len();
        let mut i: usize = 0;
        while i < self.func_sections.len()
            invariant
                full == sections_to_update(self),
                i <= self.func_sections@.len(),
                offset == self.str_tabs_view().len() + self.sym_tabs_view().len() + self.data_sections_view().len(),
                r@.len() == offset + i,
                forall|j: int|
                    0 <= j < r@.len() ==> (#[trigger] r@[j].0, r@[j].1@, r@[j].2) == full[j],
            decreases self.func_sections@.len() - i,
        {
            let t = &self.func_sections[i];
            r.push((SectionKind::Func, t.section_index(), t.size()));
            i = i + 1;
        }
        offset = r.len();
        let mut i: usize = 0;
        while i < self.reld_sections.len()
            invariant
                full == sections_to_update(self),
                i <= self.reld_sections@.len(),
                offset == self.str_tabs_view().len() + self.sym_tabs_view().len() + self.data_sections_view().len() + self.func_sections_view().len(),
                r@.len() == offset + i,
                forall|j: int|
                    0 <= j < r@.len() ==> (#[trigger] r@[j].0, r@[j].1@, r@[j].2) == full[j],
            decreases self.reld_sections@.len() - i,
        {
            let t = &self.reld_sections[i];
            r.push((SectionKind::Reld, t.section_index(), t.size()));
            i = i + 1;
        }
        offset = r.len();
        assert(r@.map_values(|e: (SectionKind, SectionIdx, u32)| (e.0, e.1@, e.2)) =~= full);
        r
    }
}

/// Whether `i` is among the header indices `listed`: that of the section header string table,
/// then those of `list`.
fn is_listed(list: &Vec<(SectionKind, SectionIdx, u32)>, shi: SectionIdx, i: u16) -> (r: bool)
    ensures
        r == (seq![shi@] + list@.map_values(|e: (SectionKind, SectionIdx, u32)| e.1@)).contains(i),
{
    let ghost listed = seq![shi@] + list@.map_values(|e: (SectionKind, SectionIdx, u32)| e.1@);
    if u16::from(shi) == i {
        assert(listed[0] == i);
        return true;
    }
    let mut k: usize = 0;
    while k < list.len()
        invariant
            k <= list@.len(),
            listed == seq![shi@] + list@.map_values(|e: (SectionKind, SectionIdx, u32)| e.1@),
            shi@ != i,
            forall|j: int| 0 <= j < k + 1 ==> listed[j] != i,
        decreases list@.len() - k,
    {
        if u16::from(list[k].1) == i {
            assert(listed[k + 1] == i);
            return true;
        }
        k = k + 1;
    }
    false
}

impl KOFile {
    // Updates all section headers with the sections' actual reported sizes, then checks that
    // every section header (but the null one) has a name and a section.
    fn update_section_headers(&mut self) -> (r: Result<(), ValidationError>)
        requires
            old(self).wf(),
        ensures
            final(self).header_view() == old(self).header_view(),
            final(self).headers_view() == validated_headers(old(self)).0,
            final(self).headers_view().len() == old(self).headers_view().len(),
            old(self).same_sections(final(self)),
            match r {
                Ok(()) => validation_outcome(old(self)) is Ok,
                Err(e) => validation_outcome(old(self)) == Err::<(), ValidationErrorView>(e@),
            },
    {
        let ghost orig = *self;
        let ghost full = sections_to_update(&orig);
        let shi = self.shstrtab.section_index();
        let h = self.section_headers[usize::from(shi)];
        let size = self.shstrtab.size();
        self.section_headers.set(
            usize::from(shi),
            SectionHeader { name_idx: h.name_idx, section_kind: h.section_kind, size },
        );
        let ghost h0 = self.section_headers@;
        assert(h0 == orig.headers_view().update(
            shi@ as int,
            with_size(orig.headers_view()[shi@ as int], orig.shstrtab_view().size_view()),
        ));
        let list = self.sections_list();
        assert(full.skip(0) == full);
        let mut k: usize = 0;
        let mut failure: Option<ValidationError> = None;
        loop
            invariant_except_break
                failure is None,
                k <= list@.len(),
                apply_updates(h0, full) == apply_updates(self.headers_view(), full.skip(k as int)),
            invariant
                full == sections_to_update(&orig),
                list@.map_values(|e: (SectionKind, SectionIdx, u32)| (e.0, e.1@, e.2)) == full,
                self.header_view() == orig.header_view(),
                orig.same_sections(self),
                self.headers_view().len() == orig.headers_view().len(),
            ensures
                match failure {
                    None => apply_updates(h0, full) == (
                        self.headers_view(),
                        None::<ValidationErrorView>,
                    ),
                    Some(e) => apply_updates(h0, full) == (self.headers_view(), Some(e@)),
                },
            decreases list@.len() - k,
        {
            if k >= list.len() {
                assert(full.skip(k as int) =~= Seq::<(SectionKind, u16, u32)>::empty());
                break ;
            }
            let (kind, idx, size) = list[k];
            let i = usize::from(idx);
            assert(full.skip(k as int)[0] == full[k as int]);
            assert((kind, idx@, size) == full[k as int]);
            if i >= self.section_headers.len() {
                failure = Some(ValidationError::InvalidSectionIndexError(kind, u16::from(idx)));
                break ;
            }
            let h = self.section_headers[i];
            if h.section_kind != kind {
                failure = Some(
                    ValidationError::SectionKindMismatchError(kind, u16::from(idx), h.section_kind),
                );
                break ;
            }
            self.section_headers.set(
                i,
                SectionHeader { name_idx: h.name_idx, section_kind: h.section_kind, size },
            );
            assert(full.skip(k as int).drop_first() == full.skip(k + 1));
            k = k + 1;
        }
        match failure {
            Some(e) => {
                return Err(e);
            },
            None => {},
        }
        let ghost hs = self.headers_view();
        let ghost listed = seq![shi@] + full.map_values(|e: (SectionKind, u16, u32)| e.1);
        assert(listed == seq![shi@] + list@.map_values(|e: (SectionKind, SectionIdx, u32)| e.1@));
        let ghost strings = orig.shstrtab_view().strings_view();
        let mut i: usize = 1;
        let mut bad: Option<ValidationError> = None;
        while i < self.section_headers.len()
            invariant_except_break
                bad is None,
                1 <= i <= self.headers_view().len(),
                check_headers(hs, listed, strings, 1) == check_headers(hs, listed, strings, i as int),
            invariant
                hs == self.headers_view(),
                listed == seq![shi@] + list@.map_values(|e: (SectionKind, SectionIdx, u32)| e.1@),
                strings == self.shstrtab_view().strings_view(),
                self.headers_view().len() <= u16::MAX + 1,
            ensures
                match bad {
                    None => check_headers(hs, listed, strings, 1) is Ok,
                    Some(e) => check_headers(hs, listed, strings, 1) == Err::<(), ValidationErrorView>(e@),
                },
            decreases self.headers_view().len() - i,
        {
            let h = self.section_headers[i];
            let name = match self.shstrtab.get(h.name_idx) {
                Some(n) => n.clone(),
                None => {
                    bad = Some(
                        ValidationError::InvalidSectionHeaderNameIndexError(
                            i as u16,
                            h.section_kind,
                            usize::from(h.name_idx),
                        ),
                    );
                    break ;
                },
            };
            if !is_listed(&list, shi, i as u16) {
                bad = Some(ValidationError::InvalidSectionHeaderError(i as u16, h.section_kind, name));
                break ;
            }
            i = i + 1;
        }
        match bad {
            Some(e) => Err(e),
            None => Ok(()),
        }
    }

    /// Consumes and verifies that a Kerbal Object file's section header data is sound so that it
    /// can be written out as a proper KerbalObject file
    ///
    /// This can fail if a section header kind doesn't match with a section's kind,
    /// or if a section's header index doesn't exist
    ///
    /// A WritableKOFile can be turned back into a KOFile
    pub fn validate(self) -> (r: Result<WritableKOFile, (Self, ValidationError)>)
        requires
            self.wf(),
        ensures
            match r {
                Ok(w) => validation_outcome(&self) is Ok && validated_file(&self, &w.file_view()),
                Err((g, e)) => validation_outcome(&self) == Err::<(), ValidationErrorView>(e@)
                    && validated_file(&self, &g),
            },
    {
        let ghost orig = self;
        let mut f = self;
        f.header = KOHeader::new(f.section_headers.len() as u16, f.shstrtab.section_index());
        assert(validated_headers(&f) == validated_headers(&orig));
        assert(validation_outcome(&f) == validation_outcome(&orig));
        match f.update_section_headers() {
            Ok(()) => Ok(WritableKOFile(f)),
            Err(e) => Err((f, e)),
        }
    }
}

/// Whether the section at position `k` of those with the header indices `idxs` is the first
/// one with the header index `i`.
pub open spec fn is_first_at(idxs: Seq<SectionIdx>, i: u16, k: int) -> bool {
    &&& 0 <= k < idxs.len()
    &&& idxs[k]@ == i
    &&& forall|j: int| 0 <= j < k ==> idxs[j]@ != i
}

/// The position of the first of the sections with the header indices `idxs` whose header
/// index is `i`, if any.
pub open spec fn first_at(idxs: Seq<SectionIdx>, i: u16) -> Option<int> {
    if exists|k: int| is_first_at(idxs, i, k) {
        Some(choose|k: int| is_first_at(idxs, i, k))
    } else {
        None
    }
}

/// The first section with a header index is the one `first_at` gives.
pub proof fn lemma_first_at(idxs: Seq<SectionIdx>, i: u16, k: int)
    requires
        is_first_at(idxs, i, k),
    ensures
        first_at(idxs, i) == Some(k),
{
    let c = choose|c: int| is_first_at(idxs, i, c);
    assert(is_first_at(idxs, i, c));
    if c < k {
        assert(idxs[c]@ != i);
    } else if c > k {
        assert(idxs[k]@ != i);
    }
}

/// The bytes written for the section with the header index `i`: the section header string
/// table if it has that index, or else the first string table, symbol table, data section,
/// function section or relocation data section (in that order of kinds) with that index,
/// or nothing.
pub open spec fn section_bytes_at(f: &KOFile, i: u16) -> Seq<u8> {
    if f.shstrtab_view().index_view()@ == i {
        strtab_bytes(f.shstrtab_view().strings_view())
    } else if let Some(k) = first_at(f.str_tab_indices(), i) {
        strtab_bytes(f.str_tabs_view()[k].strings_view())
    } else if let Some(k) = first_at(f.sym_tab_indices(), i) {
        symbols_bytes(f.sym_tabs_view()[k].symbols_view())
    } else if let Some(k) = first_at(f.data_section_indices(), i) {
        values_bytes(f.data_sections_view()[k].values_view())
    } else if let Some(k) = first_at(f.func_section_indices(), i) {
        ko_instrs_bytes(f.func_sections_view()[k].instrs_view())
    } else if let Some(k) = first_at(f.reld_section_indices(), i) {
        reld_entries_bytes(f.reld_sections_view()[k].entries_view())
    } else {
        seq![]
    }
}

/// The bytes written for the sections with the header indices below `n`, in that order.
pub open spec fn sections_bytes(f: &KOFile, n: nat) -> Seq<u8>
    decreases n,
{
    if n == 0 {
        seq![]
    } else {
        sections_bytes(f, (n - 1) as nat) + section_bytes_at(f, (n - 1) as u16)
    }
}

/// The bytes of a section header table.
pub open spec fn section_headers_bytes(hs: Seq<SectionHeader>) -> Seq<u8>
    decreases hs.len(),
{
    if hs.len() == 0 {
        seq![]
    } else {
        section_headers_bytes(hs.drop_last()) + section_header_bytes(hs.last())
    }
}

/// The bytes a KO file is written as: its header, its section header table, then each
/// section in the order of the section header table.
pub open spec fn ko_file_bytes(f: &KOFile) -> Seq<u8> {
    ko_header_bytes(f.header_view()) + section_headers_bytes(f.headers_view()) + sections_bytes(
        f,
        f.headers_view().len(),
    )
}

impl KOFile {
    /// The position of the first StringTable with the header index `i`.
    fn str_tab_at(&self, i: SectionIdx) -> (r: Option<usize>)
        ensures
            r matches Some(k) ==> first_at(self.str_tab_indices(), i@) == Some(k as int)
                && k < self.str_tabs_view().len(),
            r is None ==> first_at(self.str_tab_indices(), i@) is None,
    {
        let mut k: usize = 0;
        while k < self.str_tabs.len()
            invariant
                k <= self.str_tabs@.len(),
                forall|j: int| 0 <= j < k ==> self.str_tab_indices()[j]@ != i@,
            decreases self.str_tabs@.len() - k,
        {
            if self.str_tabs[k].section_index() == i {
                proof {
                    lemma_first_at(self.str_tab_indices(), i@, k as int);
                }
                return Some(k);
            }
            k = k + 1;
        }
        assert(!exists|k: int| is_first_at(self.str_tab_indices(), i@, k));
        None
    }

    /// The position of the first SymbolTable with the header index `i`.
    fn sym_tab_at(&self, i: SectionIdx) -> (r: Option<usize>)
        ensures
            r matches Some(k) ==> first_at(self.sym_tab_indices(), i@) == Some(k as int)
                && k < self.sym_tabs_view().len(),
            r is None ==> first_at(self.sym_tab_indices(), i@) is None,
    {
        let mut k: usize = 0;
        while k < self.sym_tabs.len()
            invariant
                k <= self.sym_tabs@.len(),
                forall|j: int| 0 <= j < k ==> self.sym_tab_indices()[j]@ != i@,
            decreases self.sym_tabs@.len() - k,
        {
            if self.sym_tabs[k].section_index() == i {
                proof {
                    lemma_first_at(self.sym_tab_indices(), i@, k as int);
                }
                return Some(k);
            }
            k = k + 1;
        }
        assert(!exists|k: int| is_first_at(self.sym_tab_indices(), i@, k));
        None
    }

    /// The position of the first DataSection with the header index `i`.
    fn data_section_at(&self, i: SectionIdx) -> (r: Option<usize>)
        ensures
            r matches Some(k) ==> first_at(self.data_section_indices(), i@) == Some(k as int)
                && k < self.data_sections_view().len(),
            r is None ==> first_at(self.data_section_indices(), i@) is None,
    {
        let mut k: usize = 0;
        while k < self.data_sections.len()
            invariant
                k <= self.data_sections@.len(),
                forall|j: int| 0 <= j < k ==> self.data_section_indices()[j]@ != i@,
            decreases self.data_sections@.len() - k,
        {
            if self.data_sections[k].section_index() == i {
                proof {
                    lemma_first_at(self.data_section_indices(), i@, k as int);
                }
                return Some(k);
            }
            k = k + 1;
        }
        assert(!exists|k: int| is_first_at(self.data_section_indices(), i@, k));
        None
    }

    /// The position of the first FuncSection with the header index `i`.
    fn func_section_at(&self, i: SectionIdx) -> (r: Option<usize>)
        ensures
            r matches Some(k) ==> first_at(self.func_section_indices(), i@) == Some(k as int)
                && k < self.func_sections_view().len(),
            r is None ==> first_at(self.func_section_indices(), i@) is None,
    {
        let mut k: usize = 0;
        while k < self.func_sections.len()
            invariant
                k <= self.func_sections@.len(),
                forall|j: int| 0 <= j < k ==> self.func_section_indices()[j]@ != i@,
            decreases self.func_sections@.len() - k,
        {
            if self.func_sections[k].section_index() == i {
                proof {
                    lemma_first_at(self.func_section_indices(), i@, k as int);
                }
                return Some(k);
            }
            k = k + 1;
        }
        assert(!exists|k: int| is_first_at(self.func_section_indices(), i@, k));
        None
    }

    /// The position of the first ReldSection with the header index `i`.
    fn reld_section_at(&self, i: SectionIdx) -> (r: Option<usize>)
        ensures
            r matches Some(k) ==> first_at(self.reld_section_indices(), i@) == Some(k as int)
                && k < self.reld_sections_view().len(),
            r is None ==> first_at(self.reld_section_indices(), i@) is None,
    {
        let mut k: usize = 0;
        while k < self.reld_sections.len()
            invariant
                k <= self.reld_sections@.len(),
                forall|j: int| 0 <= j < k ==> self.reld_section_indices()[j]@ != i@,
            decreases self.reld_sections@.len() - k,
        {
            if self.reld_sections[k].section_index() == i {
                proof {
                    lemma_first_at(self.reld_section_indices(), i@, k as int);
                }
                return Some(k);
            }
            k = k + 1;
        }
        assert(!exists|k: int| is_first_at(self.reld_section_indices(), i@, k));
        None
    }

    /// Writes the section with the header index `i`, as `section_bytes_at` says.
    fn write_section_at(&self, i: SectionIdx, buf: &mut Vec<u8>)
        ensures
            final(buf)@ == old(buf)@ + section_bytes_at(self, i@),
    {
        proof {
            broadcast use group_section_idx;
        }
        if self.shstrtab.section_index() == i {
            self.shstrtab.write(buf);
        } else if let Some(k) = self.str_tab_at(i) {
            self.str_tabs[k].write(buf);
        } else if let Some(k) = self.sym_tab_at(i) {
            self.sym_tabs[k].write(buf);
        } else if let Some(k) = self.data_section_at(i) {
            self.data_sections[k].write(buf);
        } else if let Some(k) = self.func_section_at(i) {
            self.func_sections[k].write(buf);
        } else if let Some(k) = self.reld_section_at(i) {
            self.reld_sections[k].write(buf);
        }
    }
}

/// What the sections of a KO file hold, each kind in the order the file keeps them: for each
/// section, its contents, its size, and the index of its header.
#[verifier::ext_equal]
pub struct KOSectionsView {
    /// The string tables (but the section header string table)
    pub str_tabs: Seq<(Seq<Seq<char>>, u32, u16)>,
    /// The symbol tables
    pub sym_tabs: Seq<(Seq<KOSymbol>, u32, u16)>,
    /// The data sections
    pub data_sections: Seq<(Seq<KOSValueView>, u32, u16)>,
    /// The function sections
    pub func_sections: Seq<(Seq<Instr>, u32, u16)>,
    /// The relocation data sections
    pub reld_sections: Seq<(Seq<ReldEntryView>, u32, u16)>,
}

/// No sections at all.
pub open spec fn no_sections() -> KOSectionsView {
    KOSectionsView {
        str_tabs: seq![],
        sym_tabs: seq![],
        data_sections: seq![],
        func_sections: seq![],
        reld_sections: seq![],
    }
}

/// The sections of `a` followed, kind by kind, by those of `b`.
pub open spec fn concat_sections(a: KOSectionsView, b: KOSectionsView) -> KOSectionsView {
    KOSectionsView {
        str_tabs: a.str_tabs + b.str_tabs,
        sym_tabs: a.sym_tabs + b.sym_tabs,
        data_sections: a.data_sections + b.data_sections,
        func_sections: a.func_sections + b.func_sections,
        reld_sections: a.reld_sections + b.reld_sections,
    }
}

/// Reads the section headers numbered `i` to `n - 1`: none may be a null or a debug section.
pub open spec fn decode_more_headers(data: Seq<u8>, pos: int, i: nat, n: nat) -> (
    Result<Seq<SectionHeader>, KOParseErrorView>,
    int,
)
    decreases n - i,
{
    if i >= n {
        (Ok(seq![]), pos)
    } else {
        match decode_section_header(data, pos) {
            (Err(e), p) => (Err(KOParseErrorView::SectionHeaderParseError(e)), p),
            (Ok(h), p) => if h.section_kind == SectionKind::Debug {
                (Err(KOParseErrorView::DebugSectionUnsupportedError(i as u16)), p)
            } else if h.section_kind == SectionKind::Null {
                (Err(KOParseErrorView::StrayNullSectionHeader(i as u16)), p)
            } else {
                match decode_more_headers(data, p, i + 1, n) {
                    (Ok(hs), q) => (Ok(seq![h] + hs), q),
                    (Err(e), q) => (Err(e), q),
                }
            },
        }
    }
}

/// Reads a section header table of `n` headers (at least the null one, which comes first).
pub open spec fn decode_section_table(data: Seq<u8>, pos: int, n: nat) -> (
    Result<Seq<SectionHeader>, KOParseErrorView>,
    int,
) {
    match decode_section_header(data, pos) {
        (Err(e), p) => (Err(KOParseErrorView::SectionHeaderParseError(e)), p),
        (Ok(h), p) => if h.section_kind != SectionKind::Null {
            (Err(KOParseErrorView::MissingNullSectionHeader(h.section_kind)), p)
        } else {
            match decode_more_headers(data, p, 1, n) {
                (Ok(hs), q) => (Ok(seq![h] + hs), q),
                (Err(e), q) => (Err(e), q),
            }
        },
    }
}

/// A section header table that was read holds at least one header and at most `n` (and at
/// most `u16::MAX`).
pub proof fn lemma_section_table_len(data: Seq<u8>, pos: int, n: nat)
    requires
        n <= u16::MAX,
    ensures
        decode_section_table(data, pos, n).0 matches Ok(hs) ==> 1 <= hs.len() <= if n == 0 {
            1
        } else {
            n
        },
{
    if let (Ok(h), p) = decode_section_header(data, pos) {
        lemma_more_headers_len(data, p, 1, n);
    }
}

/// Reading the headers numbered `i` to `n - 1` gives `n - i` of them (none when `i >= n`).
pub proof fn lemma_more_headers_len(data: Seq<u8>, pos: int, i: nat, n: nat)
    ensures
        decode_more_headers(data, pos, i, n).0 matches Ok(hs) ==> hs.len() == if i >= n {
            0
        } else {
            n - i
        },
    decreases n - i,
{
    if i < n {
        if let (Ok(h), p) = decode_section_header(data, pos) {
            lemma_more_headers_len(data, p, i + 1, n);
        }
    }
}

/// What reading a string table of `size` bytes at `pos` gives, its error as a KO file's.
pub open spec fn decode_str_tab(data: Seq<u8>, pos: int, size: u32) -> (
    Result<Seq<Seq<char>>, KOParseErrorView>,
    int,
) {
    match decode_strings(data, pos, pos + size, 0) {
        (Ok(ss), q) => (Ok(ss), q),
        (Err(None), q) => (
            Err(
                KOParseErrorView::StringTableParseError(
                    StringTableParseErrorView::EOFError(q as usize, size),
                ),
            ),
            q,
        ),
        (Err(Some(n)), q) => (
            Err(
                KOParseErrorView::StringTableParseError(
                    StringTableParseErrorView::InvalidUtf8Error(n as usize),
                ),
            ),
            q,
        ),
    }
}

/// What reading the section of the header `h` (at index `j`) at `pos` gives: its contents
/// as the one section of its kind.
#[verifier::opaque]
pub open spec fn decode_one_section(data: Seq<u8>, pos: int, h: SectionHeader, j: u16) -> (
    Result<KOSectionsView, KOParseErrorView>,
    int,
) {
    match h.section_kind {
        SectionKind::StrTab => match decode_str_tab(data, pos, h.size) {
            (Ok(ss), p) => (Ok(KOSectionsView { str_tabs: seq![(ss, h.size, j)], ..no_sections() }), p),
            (Err(e), p) => (Err(e), p),
        },
        SectionKind::SymTab => match decode_symbols(data, pos, h.size as nat, 0) {
            (Ok(ss), p) => (
                Ok(KOSectionsView { sym_tabs: seq![(ss, (14 * ss.len()) as u32, j)], ..no_sections() }),
                p,
            ),
            (Err(e), p) => (Err(KOParseErrorView::SymbolTableParseError(e)), p),
        },
        SectionKind::Data => match decode_data_values(data, pos, h.size as nat) {
            (Ok(vs), p) => (
                Ok(KOSectionsView { data_sections: seq![(vs, h.size, j)], ..no_sections() }),
                p,
            ),
            (Err(e), p) => (Err(KOParseErrorView::DataSectionParseError(e)), p),
        },
        SectionKind::Func => match decode_func_instrs(data, pos, h.size as nat) {
            (Ok(is), p) => (
                Ok(KOSectionsView { func_sections: seq![(is, h.size, j)], ..no_sections() }),
                p,
            ),
            (Err(e), p) => (Err(KOParseErrorView::FunctionSectionParseError(e)), p),
        },
        SectionKind::Reld => match decode_reld_entries(data, pos, h.size as nat, 0) {
            (Ok(es), p) => (
                Ok(KOSectionsView { reld_sections: seq![(es, h.size, j)], ..no_sections() }),
                p,
            ),
            (Err(e), p) => (Err(KOParseErrorView::ReldSectionParseError(e)), p),
        },
        _ => (Ok(no_sections()), pos),
    }
}

/// Reads the sections of the headers `hs` from the one at `j` on, one after the other,
/// skipping the section header string table (at `shi`), each as its header's kind and size
/// say.
pub open spec fn decode_sections(data: Seq<u8>, pos: int, hs: Seq<SectionHeader>, shi: u16, j: nat) -> (
    Result<KOSectionsView, KOParseErrorView>,
    int,
)
    decreases hs.len() - j,
{
    if j >= hs.len() {
        (Ok(no_sections()), pos)
    } else if j == shi {
        decode_sections(data, pos, hs, shi, j + 1)
    } else {
        match decode_one_section(data, pos, hs[j as int], j as u16) {
            (Err(e), p) => (Err(e), p),
            (Ok(v), p) => match decode_sections(data, p, hs, shi, j + 1) {
                (Ok(rest), q) => (Ok(concat_sections(v, rest)), q),
                (Err(e), q) => (Err(e), q),
            },
        }
    }
}

/// What a KO file holds: its header, its section headers, its section header string table
/// (contents, size, index of its header), and its other sections.
pub struct KOFileView {
    /// The file header
    pub header: KOHeader,
    /// The section header table
    pub headers: Seq<SectionHeader>,
    /// The section header string table
    pub shstrtab: (Seq<Seq<char>>, u32, u16),
    /// The other sections
    pub sections: KOSectionsView,
}

/// What `KOFile::parse` reads at `pos`: the header, the section header table, the section
/// header string table, then every other section in the order of their headers.
pub open spec fn decode_ko_file(data: Seq<u8>, pos: int) -> (Result<KOFileView, KOParseErrorView>, int) {
    match decode_ko_header(data, pos) {
        (Err(e), p) => (Err(KOParseErrorView::HeaderError(e)), p),
        (Ok(header), p) => match decode_section_table(data, p, header.num_headers as nat) {
            (Err(e), p) => (Err(e), p),
            (Ok(hs), p) => {
                let shi = header.shstrtab_idx@;
                if shi == 0 {
                    (Err(KOParseErrorView::NullShStrTabIndexError), p)
                } else if shi >= hs.len() {
                    (Err(KOParseErrorView::InvalidShStrTabIndexError(shi, hs.len() as u16)), p)
                } else {
                    let size = hs[shi as int].size;
                    match decode_str_tab(data, p, size) {
                        (Err(e), p) => (Err(e), p),
                        (Ok(ss), p) => match decode_sections(data, p, hs, shi, 1) {
                            (Err(e), p) => (Err(e), p),
                            (Ok(secs), p) => (
                                Ok(
                                    KOFileView {
                                        header,
                                        headers: hs,
                                        shstrtab: (ss, size, shi),
                                        sections: secs,
                                    },
                                ),
                                p,
                            ),
                        },
                    }
                }
            },
        },
    }
}

impl View for KOFile {
    type V = KOFileView;

    open spec fn view(&self) -> KOFileView {
        KOFileView {
            header: self.header_view(),
            headers: self.headers_view(),
            shstrtab: (
                self.shstrtab_view().strings_view(),
                self.shstrtab_view().size_view(),
                self.shstrtab_view().index_view()@,
            ),
            sections: self.sections_view(),
        }
    }
}

/// What the sections `a` to `e` hold.
pub open spec fn sections_of(
    a: Seq<StringTable>,
    b: Seq<SymbolTable>,
    c: Seq<DataSection>,
    d: Seq<FuncSection>,
    e: Seq<ReldSection>,
) -> KOSectionsView {
    KOSectionsView {
        str_tabs: a.map_values(|t: StringTable| (t.strings_view(), t.size_view(), t.index_view()@)),
        sym_tabs: b.map_values(|t: SymbolTable| (t.symbols_view(), t.size_view(), t.index_view()@)),
        data_sections: c.map_values(
            |t: DataSection| (t.values_view(), t.size_view(), t.index_view()@),
        ),
        func_sections: d.map_values(
            |t: FuncSection| (t.instrs_view(), t.size_view(), t.index_view()@),
        ),
        reld_sections: e.map_values(
            |t: ReldSection| (t.entries_view(), t.size_view(), t.index_view()@),
        ),
    }
}

impl KOFile {
    /// What the sections of this file hold.
    pub open spec fn sections_view(&self) -> KOSectionsView {
        sections_of(
            self.str_tabs_view(),
            self.sym_tabs_view(),
            self.data_sections_view(),
            self.func_sections_view(),
            self.reld_sections_view(),
        )
    }

    /// Reads a section header table of `n` headers.
    fn parse_section_table(source: &mut BufferIterator, n: u16) -> (r: Result<
        Vec<SectionHeader>,
        KOParseError,
    >)
        requires
            old(source).wf(),
        ensures
            final(source).wf(),
            final(source).data() == old(source).data(),
            (match r {
                Ok(v) => Ok(v@),
                Err(e) => Err(e@),
            }, final(source).pos()) == decode_section_table(old(source).data(), old(source).pos(), n as nat),
    {
        let ghost d = source.data();
        let null_header = match SectionHeader::parse(source) {
            Ok(h) => h,
            Err(e) => {
                return Err(KOParseError::SectionHeaderParseError(e));
            },
        };
        // The first section header table entry must be a null section
        if null_header.section_kind != SectionKind::Null {
            return Err(KOParseError::MissingNullSectionHeader(null_header.section_kind));
        }
        let ghost start = source.pos();
        let mut section_headers: Vec<SectionHeader> = Vec::new();
        section_headers.push(null_header);
        let mut i: u16 = 1;
        let mut failure: Option<KOParseError> = None;
        assert(section_headers@.drop_first() =~= Seq::<SectionHeader>::empty());
        loop
            invariant_except_break
                failure is None,
                1 <= i,
                section_headers@.len() == i,
                decode_more_headers(d, start, 1, n as nat) == match decode_more_headers(
                    d,
                    source.pos(),
                    i as nat,
                    n as nat,
                ) {
                    (Ok(hs), q) => (Ok(section_headers@.drop_first() + hs), q),
                    (Err(e), q) => (Err::<Seq<SectionHeader>, KOParseErrorView>(e), q),
                },
            invariant
                source.wf(),
                source.data() == d,
                section_headers@.len() >= 1,
                section_headers@[0] == null_header,
            ensures
                match failure {
                    None => decode_more_headers(d, start, 1, n as nat) == (
                        Ok::<Seq<SectionHeader>, KOParseErrorView>(section_headers@.drop_first()),
                        source.pos(),
                    ),
                    Some(e) => decode_more_headers(d, start, 1, n as nat) == (
                        Err::<Seq<SectionHeader>, KOParseErrorView>(e@),
                        source.pos(),
                    ),
                },
            decreases n - i,
        {
            if i >= n {
                assert(section_headers@.drop_first() + Seq::<SectionHeader>::empty()
                    == section_headers@.drop_first());
                break ;
            }
            let header = match SectionHeader::parse(source) {
                Ok(h) => h,
                Err(e) => {
                    failure = Some(KOParseError::SectionHeaderParseError(e));
                    break ;
                },
            };
            match header.section_kind {
                SectionKind::Debug => {
                    failure = Some(KOParseError::DebugSectionUnsupportedError(i));
                    break ;
                },
                SectionKind::Null => {
                    failure = Some(KOParseError::StrayNullSectionHeader(i));
                    break ;
                },
                _ => {},
            }
            let ghost before = section_headers@.drop_first();
            section_headers.push(header);
            proof {
                assert(section_headers@.drop_first() =~= before.push(header));
                match decode_more_headers(d, source.pos(), (i + 1) as nat, n as nat) {
                    (Ok(hs), q) => {
                        assert(before + (seq![header] + hs) == before.push(header) + hs);
                    },
                    _ => {},
                }
            }
            i = i + 1;
        }
        match failure {
            Some(e) => Err(e),
            None => {
                assert(section_headers@ =~= seq![null_header] + section_headers@.drop_first());
                Ok(section_headers)
            },
        }
    }

    /// Parses an entire KOFile from a byte buffer
    ///
    /// The buffer may hold at most `u32::MAX` bytes: the size of every symbol table read then
    /// fits in a `u32`.
    pub fn parse(source: &mut BufferIterator) -> (r: Result<Self, KOParseError>)
        requires
            old(source).wf(),
            old(source).data().len() <= u32::MAX,
        ensures
            final(source).wf(),
            final(source).data() == old(source).data(),
            ({
                let (res, q) = decode_ko_file(old(source).data(), old(source).pos());
                &&& final(source).pos() == q
                &&& match res {
                    Ok(v) => r matches Ok(f) && f@ == v && f.wf(),
                    Err(e) => r matches Err(e2) && e2@ == e,
                }
            }),
    {
        proof {
            broadcast use group_section_idx;
        }
        let header = match KOHeader::parse(source) {
            Ok(h) => h,
            Err(e) => {
                return Err(KOParseError::HeaderError(e));
            },
        };
        let section_headers = match Self::parse_section_table(source, header.num_headers) {
            Ok(hs) => hs,
            Err(e) => {
                return Err(e);
            },
        };
        proof {
            lemma_section_table_len(source.data(), old(source).pos() + 9, header.num_headers as nat);
        }
        // The null section is here, and we need a .shstrtab, so this is invalid
        if header.shstrtab_idx == SectionIdx::from(0u16) {
            return Err(KOParseError::NullShStrTabIndexError);
        }
        let shi = usize::from(header.shstrtab_idx);
        if shi >= section_headers.len() {
            return Err(
                KOParseError::InvalidShStrTabIndexError(
                    u16::from(header.shstrtab_idx),
                    section_headers.len() as u16,
                ),
            );
        }
        let shstrtab_size = section_headers[shi].size;
        let shstrtab = match StringTable::parse(source, shstrtab_size, header.shstrtab_idx) {
            Ok(t) => t,
            Err(e) => {
                return Err(KOParseError::StringTableParseError(e));
            },
        };
        let (str_tabs, sym_tabs, data_sections, func_sections, reld_sections) =
            match Self::parse_sections(source, &section_headers, u16::from(header.shstrtab_idx)) {
            Ok(t) => t,
            Err(e) => {
                return Err(e);
            },
        };
        Ok(
            Self {
                header,
                shstrtab,
                section_headers,
                str_tabs,
                sym_tabs,
                data_sections,
                func_sections,
                reld_sections,
            },
        )
    }

    /// Reads the StringTable of the header `h`, whose index is `j`.
    fn parse_str_tab(source: &mut BufferIterator, h: SectionHeader, j: u16) -> (r: Result<
        ParsedSection,
        KOParseError,
    >)
        requires
            old(source).wf(),
            old(source).data().len() <= u32::MAX,
            h.section_kind == SectionKind::StrTab,
        ensures
            final(source).wf(),
            final(source).data() == old(source).data(),
            (match r {
                Ok(p) => Ok(parsed_view(p)),
                Err(e) => Err(e@),
            }, final(source).pos()) == decode_one_section(old(source).data(), old(source).pos(), h, j),
    {
        proof {
            broadcast use group_section_idx;

            reveal(decode_one_section);
        }
        match StringTable::parse(source, h.size, SectionIdx(j)) {
            Ok(t) => {
                let r = ParsedSection::StrTab(t);
                assert(parsed_view(r) =~= KOSectionsView { str_tabs: seq![(t.strings_view(), h.size, j)], ..no_sections() });
                Ok(r)
            },
            Err(e) => Err(KOParseError::StringTableParseError(e)),
        }
    }

    /// Reads the SymbolTable of the header `h`, whose index is `j`.
    fn parse_sym_tab(source: &mut BufferIterator, h: SectionHeader, j: u16) -> (r: Result<
        ParsedSection,
        KOParseError,
    >)
        requires
            old(source).wf(),
            old(source).data().len() <= u32::MAX,
            h.section_kind == SectionKind::SymTab,
        ensures
            final(source).wf(),
            final(source).data() == old(source).data(),
            (match r {
                Ok(p) => Ok(parsed_view(p)),
                Err(e) => Err(e@),
            }, final(source).pos()) == decode_one_section(old(source).data(), old(source).pos(), h, j),
    {
        proof {
            broadcast use group_section_idx;

            reveal(decode_one_section);
        }
        match SymbolTable::parse(source, h.size, SectionIdx(j)) {
            Ok(t) => {
                let r = ParsedSection::SymTab(t);
                assert(parsed_view(r) =~= KOSectionsView { sym_tabs: seq![(t.symbols_view(), (14 * t.symbols_view().len()) as u32, j)], ..no_sections() });
                Ok(r)
            },
            Err(e) => Err(KOParseError::SymbolTableParseError(e)),
        }
    }

    /// Reads the DataSection of the header `h`, whose index is `j`.
    fn parse_data_section(source: &mut BufferIterator, h: SectionHeader, j: u16) -> (r: Result<
        ParsedSection,
        KOParseError,
    >)
        requires
            old(source).wf(),
            old(source).data().len() <= u32::MAX,
            h.section_kind == SectionKind::Data,
        ensures
            final(source).wf(),
            final(source).data() == old(source).data(),
            (match r {
                Ok(p) => Ok(parsed_view(p)),
                Err(e) => Err(e@),
            }, final(source).pos()) == decode_one_section(old(source).data(), old(source).pos(), h, j),
    {
        proof {
            broadcast use group_section_idx;

            reveal(decode_one_section);
        }
        match DataSection::parse(source, h.size, SectionIdx(j)) {
            Ok(t) => {
                let r = ParsedSection::Data(t);
                assert(parsed_view(r) =~= KOSectionsView { data_sections: seq![(t.values_view(), h.size, j)], ..no_sections() });
                Ok(r)
            },
            Err(e) => Err(KOParseError::DataSectionParseError(e)),
        }
    }

    /// Reads the FuncSection of the header `h`, whose index is `j`.
    fn parse_func_section(source: &mut BufferIterator, h: SectionHeader, j: u16) -> (r: Result<
        ParsedSection,
        KOParseError,
    >)
        requires
            old(source).wf(),
            old(source).data().len() <= u32::MAX,
            h.section_kind == SectionKind::Func,
        ensures
            final(source).wf(),
            final(source).data() == old(source).data(),
            (match r {
                Ok(p) => Ok(parsed_view(p)),
                Err(e) => Err(e@),
            }, final(source).pos()) == decode_one_section(old(source).data(), old(source).pos(), h, j),
    {
        proof {
            broadcast use group_section_idx;

            reveal(decode_one_section);
        }
        match FuncSection::parse(source, h.size, SectionIdx(j)) {
            Ok(t) => {
                let r = ParsedSection::Func(t);
                assert(parsed_view(r) =~= KOSectionsView { func_sections: seq![(t.instrs_view(), h.size, j)], ..no_sections() });
                Ok(r)
            },
            Err(e) => Err(KOParseError::FunctionSectionParseError(e)),
        }
    }

    /// Reads the ReldSection of the header `h`, whose index is `j`.
    fn parse_reld_section(source: &mut BufferIterator, h: SectionHeader, j: u16) -> (r: Result<
        ParsedSection,
        KOParseError,
    >)
        requires
            old(source).wf(),
            old(source).data().len() <= u32::MAX,
            h.section_kind == SectionKind::Reld,
        ensures
            final(source).wf(),
            final(source).data() == old(source).data(),
            (match r {
                Ok(p) => Ok(parsed_view(p)),
                Err(e) => Err(e@),
            }, final(source).pos()) == decode_one_section(old(source).data(), old(source).pos(), h, j),
    {
        proof {
            broadcast use group_section_idx;

            reveal(decode_one_section);
        }
        match ReldSection::parse(source, h.size, SectionIdx(j)) {
            Ok(t) => {
                let r = ParsedSection::Reld(t);
                assert(parsed_view(r) =~= KOSectionsView { reld_sections: seq![(t.entries_view(), h.size, j)], ..no_sections() });
                Ok(r)
            },
            Err(e) => Err(KOParseError::ReldSectionParseError(e)),
        }
    }

    /// Reads the section of the header `h`, whose index is `j`.
    fn parse_one_section(source: &mut BufferIterator, h: SectionHeader, j: u16) -> (r: Result<
        ParsedSection,
        KOParseError,
    >)
        requires
            old(source).wf(),
            old(source).data().len() <= u32::MAX,
        ensures
            final(source).wf(),
            final(source).data() == old(source).data(),
            (match r {
                Ok(p) => Ok(parsed_view(p)),
                Err(e) => Err(e@),
            }, final(source).pos()) == decode_one_section(old(source).data(), old(source).pos(), h, j),
    {
        match h.section_kind {
            SectionKind::StrTab => Self::parse_str_tab(source, h, j),
            SectionKind::SymTab => Self::parse_sym_tab(source, h, j),
            SectionKind::Data => Self::parse_data_section(source, h, j),
            SectionKind::Func => Self::parse_func_section(source, h, j),
            SectionKind::Reld => Self::parse_reld_section(source, h, j),
            _ => {
                proof {
                    reveal(decode_one_section);
                    assert(parsed_view(ParsedSection::Nothing) =~= no_sections());
                }
                Ok(ParsedSection::Nothing)
            },
        }
    }

    /// Reads the sections of the headers `hs`, one after the other in the order of their
    /// headers, skipping the null section and the section header string table at `shi`.
    fn parse_sections(source: &mut BufferIterator, hs: &Vec<SectionHeader>, shi: u16) -> (r: Result<
        (Vec<StringTable>, Vec<SymbolTable>, Vec<DataSection>, Vec<FuncSection>, Vec<ReldSection>),
        KOParseError,
    >)
        requires
            old(source).wf(),
            old(source).data().len() <= u32::MAX,
            hs@.len() <= u16::MAX,
        ensures
            final(source).wf(),
            final(source).data() == old(source).data(),
            ({
                let (res, q) = decode_sections(old(source).data(), old(source).pos(), hs@, shi, 1);
                &&& final(source).pos() == q
                &&& match res {
                    Ok(v) => r matches Ok((a, b, c, d, e)) && v == sections_of(a@, b@, c@, d@, e@),
                    Err(e) => r matches Err(e2) && e2@ == e,
                }
            }),
    {
        let ghost dat = source.data();
        let ghost start = source.pos();
        let mut str_tabs: Vec<StringTable> = Vec::new();
        let mut sym_tabs: Vec<SymbolTable> = Vec::new();
        let mut data_sections: Vec<DataSection> = Vec::new();
        let mut func_sections: Vec<FuncSection> = Vec::new();
        let mut reld_sections: Vec<ReldSection> = Vec::new();
        let mut failure: Option<KOParseError> = None;
        let mut j: usize = 1;
        assert(sections_of(str_tabs@, sym_tabs@, data_sections@, func_sections@, reld_sections@)
            =~= no_sections());
        assert(concat_sections(no_sections(), no_sections()) =~= no_sections());
        loop
            invariant_except_break
                failure is None,
                1 <= j,
                decode_sections(dat, start, hs@, shi, 1) == match decode_sections(
                    dat,
                    source.pos(),
                    hs@,
                    shi,
                    j as nat,
                ) {
                    (Ok(rest), q) => (
                        Ok(
                            concat_sections(
                                sections_of(
                                    str_tabs@,
                                    sym_tabs@,
                                    data_sections@,
                                    func_sections@,
                                    reld_sections@,
                                ),
                                rest,
                            ),
                        ),
                        q,
                    ),
                    (Err(e), q) => (Err::<KOSectionsView, KOParseErrorView>(e), q),
                },
            invariant
                source.wf(),
                source.data() == dat,
                dat.len() <= u32::MAX,
                hs@.len() <= u16::MAX,
            ensures
                match failure {
                    None => decode_sections(dat, start, hs@, shi, 1) == (
                        Ok::<KOSectionsView, KOParseErrorView>(
                            sections_of(
                                str_tabs@,
                                sym_tabs@,
                                data_sections@,
                                func_sections@,
                                reld_sections@,
                            ),
                        ),
                        source.pos(),
                    ),
                    Some(e) => decode_sections(dat, start, hs@, shi, 1) == (
                        Err::<KOSectionsView, KOParseErrorView>(e@),
                        source.pos(),
                    ),
                },
            decreases hs@.len() - j,
        {
            let ghost cur = sections_of(
                str_tabs@,
                sym_tabs@,
                data_sections@,
                func_sections@,
                reld_sections@,
            );
            if j >= hs.len() {
                assert(concat_sections(cur, no_sections()) =~= cur);
                break ;
            }
            if j == shi as usize {
                j = j + 1;
                continue ;
            }
            let parsed = match Self::parse_one_section(source, hs[j], j as u16) {
                Ok(p) => p,
                Err(e) => {
                    failure = Some(e);
                    break ;
                },
            };
            let ghost one = parsed_view(parsed);
            match parsed {
                ParsedSection::StrTab(t) => {
                    str_tabs.push(t);
                },
                ParsedSection::SymTab(t) => {
                    sym_tabs.push(t);
                },
                ParsedSection::Data(t) => {
                    data_sections.push(t);
                },
                ParsedSection::Func(t) => {
                    func_sections.push(t);
                },
                ParsedSection::Reld(t) => {
                    reld_sections.push(t);
                },
                ParsedSection::Nothing => {},
            }
            proof {
                let next = sections_of(
                    str_tabs@,
                    sym_tabs@,
                    data_sections@,
                    func_sections@,
                    reld_sections@,
                );
                assert(next =~= concat_sections(cur, one));
                match decode_sections(dat, source.pos(), hs@, shi, (j + 1) as nat) {
                    (Ok(rest), q) => {
                        assert(concat_sections(cur, concat_sections(one, rest)) =~= concat_sections(
                            next,
                            rest,
                        ));
                    },
                    _ => {},
                }
            }
            j = j + 1;
        }
        match failure {
            Some(e) => Err(e),
            None => Ok((str_tabs, sym_tabs, data_sections, func_sections, reld_sections)),
        }
    }
}

impl Default for KOFile {
    fn default() -> (r: Self)
        ensures
            r.wf(),
            r.header_view() == KOHeader::new_spec(2, section_idx(1)),
            r.headers_view() == seq![
                SectionHeader { name_idx: string_idx(0), section_kind: SectionKind::Null, size: 0 },
                SectionHeader { name_idx: string_idx(1), section_kind: SectionKind::StrTab, size: 0 },
            ],
            r.shstrtab_view().strings_view() == seq![Seq::<char>::empty(), ".shstrtab"@],
            r.shstrtab_view().size_view() == 11,
            r.shstrtab_view().index_view() == section_idx(1),
            r.sections_view() == no_sections(),
    {
        let r = Self::new();
        assert(r.sections_view() =~= no_sections());
        r
    }
}

/// The bytes of headers that start with `h` are those of `h` followed by those of the rest.
pub proof fn lemma_section_headers_prepend(h: SectionHeader, hs: Seq<SectionHeader>)
    ensures
        section_headers_bytes(seq![h] + hs) == section_header_bytes(h) + section_headers_bytes(hs),
    decreases hs.len(),
{
    let t = seq![h] + hs;
    if hs.len() == 0 {
        assert(t.drop_last() == Seq::<SectionHeader>::empty());
        assert(t.last() == h);
        assert(section_headers_bytes(t.drop_last()) == Seq::<u8>::empty());
        assert(section_headers_bytes(hs) == Seq::<u8>::empty());
        assert(section_headers_bytes(t) =~= section_header_bytes(h) + section_headers_bytes(hs));
    } else {
        lemma_section_headers_prepend(h, hs.drop_last());
        assert(t.drop_last() == seq![h] + hs.drop_last());
        assert(t.last() == hs.last());
        let a = section_header_bytes(h);
        let b = section_headers_bytes(hs.drop_last());
        let c = section_header_bytes(hs.last());
        assert(section_headers_bytes(t) == section_headers_bytes(t.drop_last()) + c);
        assert(section_headers_bytes(hs) == b + c);
        assert(a + b + c =~= a + (b + c));
    }
}

/// A section header table is written as 9 bytes for each header.
pub proof fn lemma_section_headers_bytes_len(hs: Seq<SectionHeader>)
    ensures
        section_headers_bytes(hs).len() == 9 * hs.len(),
    decreases hs.len(),
{
    if hs.len() > 0 {
        lemma_section_headers_bytes_len(hs.drop_last());
        lemma_section_header_size(hs.last());
    }
}

/// Whether a header may stand after the first in a section header table that is read back:
/// it is neither a null nor a debug section's.
pub open spec fn readable_header(h: SectionHeader) -> bool {
    h.section_kind != SectionKind::Null && h.section_kind != SectionKind::Debug
}

/// Reading headers where a readable header was written: that header, then the headers read
/// after it.
proof fn lemma_more_headers_cons(
    h: SectionHeader,
    tail: Seq<SectionHeader>,
    prefix: Seq<u8>,
    rest: Seq<u8>,
    i: nat,
    n: nat,
    q: int,
)
    requires
        readable_header(h),
        i < n,
        decode_more_headers(prefix + section_header_bytes(h) + rest, prefix.len() + 9int, i + 1, n)
            == (Ok::<Seq<SectionHeader>, KOParseErrorView>(tail), q),
    ensures
        decode_more_headers(prefix + section_header_bytes(h) + rest, prefix.len() as int, i, n) == (
            Ok::<Seq<SectionHeader>, KOParseErrorView>(seq![h] + tail),
            q,
        ),
{
    section_header_round_trip(h, prefix, rest);
}

/// Readable headers written one after the other are read back as the headers numbered `i` on.
pub proof fn more_headers_round_trip(hs: Seq<SectionHeader>, prefix: Seq<u8>, rest: Seq<u8>, i: nat)
    requires
        forall|k: int| 0 <= k < hs.len() ==> readable_header(#[trigger] hs[k]),
    ensures
        decode_more_headers(prefix + section_headers_bytes(hs) + rest, prefix.len() as int, i, i + hs.len())
            == (Ok::<Seq<SectionHeader>, KOParseErrorView>(hs), (prefix.len() + 9 * hs.len()) as int),
    decreases hs.len(),
{
    let data = prefix + section_headers_bytes(hs) + rest;
    let n = prefix.len() as int;
    if hs.len() == 0 {
        assert(hs =~= Seq::<SectionHeader>::empty());
    } else {
        let h = hs[0];
        let tail = hs.drop_first();
        let hb = section_header_bytes(h);
        assert(hs == seq![h] + tail);
        lemma_section_headers_prepend(h, tail);
        lemma_section_header_size(h);
        assert forall|k: int| 0 <= k < tail.len() implies readable_header(#[trigger] tail[k]) by {
            assert(tail[k] == hs[k + 1]);
        }
        assert(readable_header(hs[0]));
        more_headers_round_trip(tail, prefix + hb, rest, i + 1);
        assert(data =~= (prefix + hb) + section_headers_bytes(tail) + rest);
        assert(data =~= prefix + hb + (section_headers_bytes(tail) + rest));
        assert(i + hs.len() == (i + 1) + tail.len());
        assert(9 * hs.len() == 9 * tail.len() + 9);
        lemma_more_headers_cons(
            h,
            tail,
            prefix,
            section_headers_bytes(tail) + rest,
            i,
            i + hs.len(),
            n + 9 * hs.len(),
        );
    }
}

/// A section header table whose first header is a null section's and whose other headers
/// are readable is read back as itself.
pub proof fn section_table_round_trip(hs: Seq<SectionHeader>, prefix: Seq<u8>, rest: Seq<u8>)
    requires
        hs.len() >= 1,
        hs[0].section_kind == SectionKind::Null,
        forall|k: int| 1 <= k < hs.len() ==> readable_header(#[trigger] hs[k]),
    ensures
        decode_section_table(prefix + section_headers_bytes(hs) + rest, prefix.len() as int, hs.len())
            == (Ok::<Seq<SectionHeader>, KOParseErrorView>(hs), (prefix.len() + 9 * hs.len()) as int),
{
    let data = prefix + section_headers_bytes(hs) + rest;
    let h = hs[0];
    let tail = hs.drop_first();
    let hb = section_header_bytes(h);
    assert(hs == seq![h] + tail);
    lemma_section_headers_prepend(h, tail);
    lemma_section_header_size(h);
    assert(data =~= prefix + hb + (section_headers_bytes(tail) + rest));
    section_header_round_trip(h, prefix, section_headers_bytes(tail) + rest);
    assert forall|k: int| 0 <= k < tail.len() implies readable_header(#[trigger] tail[k]) by {
        assert(tail[k] == hs[k + 1]);
    }
    assert(data =~= (prefix + hb) + section_headers_bytes(tail) + rest);
    more_headers_round_trip(tail, prefix + hb, rest, 1);
    assert(1 + tail.len() == hs.len());
}

/// Whether the header indices `idxs` increase strictly.
pub open spec fn sorted_indices(idxs: Seq<SectionIdx>) -> bool {
    forall|a: int, b: int| 0 <= a < b < idxs.len() ==> idxs[a]@ < idxs[b]@
}

/// The number of the header indices `idxs` below `j`.
pub open spec fn count_below(idxs: Seq<SectionIdx>, j: int) -> nat
    decreases idxs.len(),
{
    if idxs.len() == 0 {
        0
    } else {
        count_below(idxs.drop_last(), j) + if idxs.last()@ < j {
            1nat
        } else {
            0nat
        }
    }
}

/// When every index is below `j`, all of them are counted.
proof fn lemma_count_below_all(idxs: Seq<SectionIdx>, j: int)
    requires
        forall|k: int| 0 <= k < idxs.len() ==> #[trigger] idxs[k]@ < j,
    ensures
        count_below(idxs, j) == idxs.len(),
    decreases idxs.len(),
{
    if idxs.len() > 0 {
        assert(idxs.last() == idxs[idxs.len() - 1]);
        assert forall|k: int| 0 <= k < idxs.drop_last().len() implies #[trigger] idxs.drop_last()[k]@
            < j by {
            assert(idxs.drop_last()[k] == idxs[k]);
        }
        lemma_count_below_all(idxs.drop_last(), j);
    }
}

/// When no index is below `j`, none is counted.
proof fn lemma_count_below_none(idxs: Seq<SectionIdx>, j: int)
    requires
        forall|k: int| 0 <= k < idxs.len() ==> #[trigger] idxs[k]@ >= j,
    ensures
        count_below(idxs, j) == 0,
    decreases idxs.len(),
{
    if idxs.len() > 0 {
        assert(idxs.last() == idxs[idxs.len() - 1]);
        assert forall|k: int| 0 <= k < idxs.drop_last().len() implies #[trigger] idxs.drop_last()[k]@
            >= j by {
            assert(idxs.drop_last()[k] == idxs[k]);
        }
        lemma_count_below_none(idxs.drop_last(), j);
    }
}

/// When no index is `j`, as many are below `j + 1` as below `j`.
proof fn lemma_count_below_skip(idxs: Seq<SectionIdx>, j: int)
    requires
        forall|k: int| 0 <= k < idxs.len() ==> #[trigger] idxs[k]@ != j,
    ensures
        count_below(idxs, j + 1) == count_below(idxs, j),
    decreases idxs.len(),
{
    if idxs.len() > 0 {
        assert(idxs.last() == idxs[idxs.len() - 1]);
        assert forall|k: int| 0 <= k < idxs.drop_last().len() implies #[trigger] idxs.drop_last()[k]@
            != j by {
            assert(idxs.drop_last()[k] == idxs[k]);
        }
        lemma_count_below_skip(idxs.drop_last(), j);
    }
}

/// In increasing indices, the one at position `c` that is `j` has `c` indices below it, and
/// `c + 1` below `j + 1`.
proof fn lemma_count_below_sorted(idxs: Seq<SectionIdx>, j: int, c: int)
    requires
        sorted_indices(idxs),
        0 <= c < idxs.len(),
        idxs[c]@ == j,
    ensures
        count_below(idxs, j) == c,
        count_below(idxs, j + 1) == c + 1,
    decreases idxs.len(),
{
    let d = idxs.drop_last();
    assert(idxs.last() == idxs[idxs.len() - 1]);
    assert forall|a: int, b: int| 0 <= a < b < d.len() implies d[a]@ < d[b]@ by {
        assert(d[a] == idxs[a] && d[b] == idxs[b]);
    }
    if c == idxs.len() - 1 {
        assert forall|k: int| 0 <= k < d.len() implies #[trigger] d[k]@ < j by {
            assert(d[k] == idxs[k]);
        }
        lemma_count_below_all(d, j);
        lemma_count_below_all(d, j + 1);
    } else {
        assert(d[c] == idxs[c]);
        lemma_count_below_sorted(d, j, c);
        assert(idxs[c]@ < idxs[idxs.len() - 1]@);
    }
}

/// Whether the sections with the header indices `idxs` and the sizes `sizes` are laid out
/// as a KO file that is read back as itself needs: in the order of their headers, each at a
/// header (after the null one and the section header string table) of the kind `kind` that
/// records its size.
pub open spec fn laid_out(
    hs: Seq<SectionHeader>,
    idxs: Seq<SectionIdx>,
    sizes: Seq<u32>,
    kind: SectionKind,
) -> bool {
    &&& sorted_indices(idxs)
    &&& idxs.len() == sizes.len()
    &&& forall|c: int|
        0 <= c < idxs.len() ==> 2 <= #[trigger] idxs[c]@ < hs.len() && hs[idxs[c]@ as int].section_kind
            == kind && hs[idxs[c]@ as int].size == sizes[c]
}

/// Whether some section of `idxs` has the header index `j`.
pub open spec fn some_at(idxs: Seq<SectionIdx>, j: int) -> bool {
    exists|c: int| 0 <= c < idxs.len() && #[trigger] idxs[c]@ == j
}

/// Whether the header at `j` is that of a section of the file, of the header's kind.
pub open spec fn has_section_at(f: &KOFile, j: int) -> bool {
    match f.headers_view()[j].section_kind {
        SectionKind::StrTab => some_at(f.str_tab_indices(), j),
        SectionKind::SymTab => some_at(f.sym_tab_indices(), j),
        SectionKind::Data => some_at(f.data_section_indices(), j),
        SectionKind::Func => some_at(f.func_section_indices(), j),
        SectionKind::Reld => some_at(f.reld_section_indices(), j),
        _ => false,
    }
}

/// Whether every section of the file is read back as itself from the bytes it is written as
/// and its size: strings without NUL chars, values and instructions that read back as
/// themselves, and sizes that count the bytes written.
pub open spec fn contents_round_trip(f: &KOFile) -> bool {
    &&& forall|c: int|
        0 <= c < f.str_tabs_view().len() ==> strings_without_nul(
            #[trigger] f.str_tabs_view()[c].strings_view(),
        ) && f.str_tabs_view()[c].size_view() == strtab_size(f.str_tabs_view()[c].strings_view())
    &&& forall|c: int|
        0 <= c < f.sym_tabs_view().len() ==> #[trigger] f.sym_tabs_view()[c].size_view() == 14
            * f.sym_tabs_view()[c].symbols_view().len()
    &&& forall|c: int|
        0 <= c < f.data_sections_view().len() ==> #[trigger] f.data_sections_view()[c].size_view()
            == values_size(f.data_sections_view()[c].values_view()) && forall|i: int|
            0 <= i < f.data_sections_view()[c].values_view().len() ==> value_round_trips(
                f.data_sections_view()[c].values_view()[i],
            )
    &&& forall|c: int|
        0 <= c < f.func_sections_view().len() ==> #[trigger] f.func_sections_view()[c].size_view()
            == ko_instrs_size(f.func_sections_view()[c].instrs_view()) && forall|k: int|
            0 <= k < f.func_sections_view()[c].instrs_view().len() ==> ko_instr_round_trips(
                f.func_sections_view()[c].instrs_view()[k],
            )
    &&& forall|c: int|
        0 <= c < f.reld_sections_view().len() ==> #[trigger] f.reld_sections_view()[c].size_view()
            == 11 * f.reld_sections_view()[c].entries_view().len()
}

/// A KO file that is read back as itself after it has been written: a validated header and
/// section header table (the null header first, the section header string table second, no
/// debug or stray null header), at most `u16::MAX` headers, every header after the first two
/// belonging to exactly one section, the sections of each kind in the order of their headers,
/// and contents that are read back as themselves (see `contents_round_trip`).
pub open spec fn ko_round_trips(f: &KOFile) -> bool {
    let hs = f.headers_view();
    &&& 2 <= hs.len() <= u16::MAX
    &&& f.shstrtab_view().index_view()@ == 1
    &&& f.header_view() == KOHeader::new_spec(hs.len() as u16, section_idx(1))
    &&& hs[0].section_kind == SectionKind::Null
    &&& forall|j: int| 1 <= j < hs.len() ==> readable_header(#[trigger] hs[j])
    &&& hs[1].size == f.shstrtab_view().size_view()
    &&& f.shstrtab_view().size_view() == strtab_size(f.shstrtab_view().strings_view())
    &&& strings_without_nul(f.shstrtab_view().strings_view())
    &&& laid_out(
        hs,
        f.str_tab_indices(),
        f.str_tabs_view().map_values(|t: StringTable| t.size_view()),
        SectionKind::StrTab,
    )
    &&& laid_out(
        hs,
        f.sym_tab_indices(),
        f.sym_tabs_view().map_values(|t: SymbolTable| t.size_view()),
        SectionKind::SymTab,
    )
    &&& laid_out(
        hs,
        f.data_section_indices(),
        f.data_sections_view().map_values(|t: DataSection| t.size_view()),
        SectionKind::Data,
    )
    &&& laid_out(
        hs,
        f.func_section_indices(),
        f.func_sections_view().map_values(|t: FuncSection| t.size_view()),
        SectionKind::Func,
    )
    &&& laid_out(
        hs,
        f.reld_section_indices(),
        f.reld_sections_view().map_values(|t: ReldSection| t.size_view()),
        SectionKind::Reld,
    )
    &&& forall|j: int| 2 <= j < hs.len() ==> has_section_at(f, j)
    &&& contents_round_trip(f)
}

/// The sections of the file whose headers come at or after `j`, kind by kind.
pub open spec fn sections_from(f: &KOFile, j: int) -> KOSectionsView {
    let v = f.sections_view();
    KOSectionsView {
        str_tabs: v.str_tabs.skip(count_below(f.str_tab_indices(), j) as int),
        sym_tabs: v.sym_tabs.skip(count_below(f.sym_tab_indices(), j) as int),
        data_sections: v.data_sections.skip(count_below(f.data_section_indices(), j) as int),
        func_sections: v.func_sections.skip(count_below(f.func_section_indices(), j) as int),
        reld_sections: v.reld_sections.skip(count_below(f.reld_section_indices(), j) as int),
    }
}

/// When no section of `idxs` has the header index `j`, `first_at` finds none.
proof fn lemma_first_at_none(idxs: Seq<SectionIdx>, j: u16)
    requires
        forall|k: int| 0 <= k < idxs.len() ==> #[trigger] idxs[k]@ != j,
    ensures
        first_at(idxs, j) is None,
{
    assert(!exists|k: int| is_first_at(idxs, j, k));
}

/// The section of the header at `j` of a laid out kind: its position `c` among those of its
/// kind, with as many of them before `j` and one more before `j + 1`.
proof fn lemma_at_kind(
    hs: Seq<SectionHeader>,
    idxs: Seq<SectionIdx>,
    sizes: Seq<u32>,
    kind: SectionKind,
    j: int,
) -> (c: int)
    requires
        laid_out(hs, idxs, sizes, kind),
        some_at(idxs, j),
        hs.len() <= u16::MAX,
    ensures
        0 <= c < idxs.len(),
        idxs[c]@ == j,
        count_below(idxs, j) == c,
        count_below(idxs, j + 1) == c + 1,
        first_at(idxs, j as u16) == Some(c),
        hs[j].size == sizes[c],
{
    let c = choose|c: int| 0 <= c < idxs.len() && #[trigger] idxs[c]@ == j;
    lemma_count_below_sorted(idxs, j, c);
    assert(is_first_at(idxs, j as u16, c));
    lemma_first_at(idxs, j as u16, c);
    c
}

/// No section of a laid out kind has the header index `j` of a header of another kind.
proof fn lemma_not_kind(
    hs: Seq<SectionHeader>,
    idxs: Seq<SectionIdx>,
    sizes: Seq<u32>,
    kind: SectionKind,
    j: int,
)
    requires
        laid_out(hs, idxs, sizes, kind),
        0 <= j < hs.len() <= u16::MAX,
        hs[j].section_kind != kind,
    ensures
        count_below(idxs, j + 1) == count_below(idxs, j),
        first_at(idxs, j as u16) is None,
{
    assert forall|k: int| 0 <= k < idxs.len() implies #[trigger] idxs[k]@ != j by {
        if idxs[k]@ == j {
            assert(hs[idxs[k]@ as int].section_kind == kind);
        }
    }
    lemma_count_below_skip(idxs, j);
    assert forall|k: int| 0 <= k < idxs.len() implies #[trigger] idxs[k]@ != j as u16 by {}
    lemma_first_at_none(idxs, j as u16);
}

/// The section of the header at `j`, as the one section of its kind.
pub open spec fn section_one(f: &KOFile, j: int) -> KOSectionsView {
    let v = f.sections_view();
    match f.headers_view()[j].section_kind {
        SectionKind::StrTab => KOSectionsView {
            str_tabs: seq![v.str_tabs[count_below(f.str_tab_indices(), j) as int]],
            ..no_sections()
        },
        SectionKind::SymTab => KOSectionsView {
            sym_tabs: seq![v.sym_tabs[count_below(f.sym_tab_indices(), j) as int]],
            ..no_sections()
        },
        SectionKind::Data => KOSectionsView {
            data_sections: seq![v.data_sections[count_below(f.data_section_indices(), j) as int]],
            ..no_sections()
        },
        SectionKind::Func => KOSectionsView {
            func_sections: seq![v.func_sections[count_below(f.func_section_indices(), j) as int]],
            ..no_sections()
        },
        SectionKind::Reld => KOSectionsView {
            reld_sections: seq![v.reld_sections[count_below(f.reld_section_indices(), j) as int]],
            ..no_sections()
        },
        _ => no_sections(),
    }
}

/// The facts about the other kinds at the header `j` of the kind `kind`: none of their
/// sections sits there.
proof fn lemma_others_at(f: &KOFile, j: int, kind: SectionKind)
    requires
        ko_round_trips(f),
        2 <= j < f.headers_view().len(),
        f.headers_view()[j].section_kind == kind,
    ensures
        kind != SectionKind::StrTab ==> count_below(f.str_tab_indices(), j + 1) == count_below(
            f.str_tab_indices(),
            j,
        ) && first_at(f.str_tab_indices(), j as u16) is None,
        kind != SectionKind::SymTab ==> count_below(f.sym_tab_indices(), j + 1) == count_below(
            f.sym_tab_indices(),
            j,
        ) && first_at(f.sym_tab_indices(), j as u16) is None,
        kind != SectionKind::Data ==> count_below(f.data_section_indices(), j + 1) == count_below(
            f.data_section_indices(),
            j,
        ) && first_at(f.data_section_indices(), j as u16) is None,
        kind != SectionKind::Func ==> count_below(f.func_section_indices(), j + 1) == count_below(
            f.func_section_indices(),
            j,
        ) && first_at(f.func_section_indices(), j as u16) is None,
        kind != SectionKind::Reld ==> count_below(f.reld_section_indices(), j + 1) == count_below(
            f.reld_section_indices(),
            j,
        ) && first_at(f.reld_section_indices(), j as u16) is None,
{
    let hs = f.headers_view();
    if kind != SectionKind::StrTab {
        lemma_not_kind(
            hs,
            f.str_tab_indices(),
            f.str_tabs_view().map_values(|t: StringTable| t.size_view()),
            SectionKind::StrTab,
            j,
        );
    }
    if kind != SectionKind::SymTab {
        lemma_not_kind(
            hs,
            f.sym_tab_indices(),
            f.sym_tabs_view().map_values(|t: SymbolTable| t.size_view()),
            SectionKind::SymTab,
            j,
        );
    }
    if kind != SectionKind::Data {
        lemma_not_kind(
            hs,
            f.data_section_indices(),
            f.data_sections_view().map_values(|t: DataSection| t.size_view()),
            SectionKind::Data,
            j,
        );
    }
    if kind != SectionKind::Func {
        lemma_not_kind(
            hs,
            f.func_section_indices(),
            f.func_sections_view().map_values(|t: FuncSection| t.size_view()),
            SectionKind::Func,
            j,
        );
    }
    if kind != SectionKind::Reld {
        lemma_not_kind(
            hs,
            f.reld_section_indices(),
            f.reld_sections_view().map_values(|t: ReldSection| t.size_view()),
            SectionKind::Reld,
            j,
        );
    }
}

/// Where the StringTable of the header at `j` was written, reading a section there gives it.
proof fn lemma_read_str_tab_at(f: &KOFile, j: int, prefix: Seq<u8>, rest: Seq<u8>)
    requires
        ko_round_trips(f),
        2 <= j < f.headers_view().len(),
        f.headers_view()[j].section_kind == SectionKind::StrTab,
    ensures
        decode_one_section(
            prefix + section_bytes_at(f, j as u16) + rest,
            prefix.len() as int,
            f.headers_view()[j],
            j as u16,
        ) == (
            Ok::<KOSectionsView, KOParseErrorView>(section_one(f, j)),
            (prefix.len() + section_bytes_at(f, j as u16).len()) as int,
        ),
        concat_sections(section_one(f, j), sections_from(f, j + 1)) == sections_from(f, j),
{
    reveal(decode_one_section);
    let hs = f.headers_view();
    let sizes = f.str_tabs_view().map_values(|t: StringTable| t.size_view());
    assert(has_section_at(f, j));
    let c = lemma_at_kind(hs, f.str_tab_indices(), sizes, SectionKind::StrTab, j);
    lemma_others_at(f, j, SectionKind::StrTab);
    let t = f.str_tabs_view()[c];
    assert(t.index_view()@ == j);
    assert(sizes[c] == t.size_view());
    assert(section_bytes_at(f, j as u16) == strtab_bytes(t.strings_view()));
    assert(contents_round_trip(f));
    assert(f.str_tabs_view()[c].size_view() == t.size_view());
    {
        strtab_round_trip(t.strings_view(), prefix, rest, 0);
        lemma_strtab_bytes_len(t.strings_view());
    }
    let v = f.sections_view();
    assert(v.str_tabs.skip(c) =~= seq![v.str_tabs[c]] + v.str_tabs.skip(c + 1));
    assert(concat_sections(section_one(f, j), sections_from(f, j + 1)) =~= sections_from(f, j));
}

/// Where the SymbolTable of the header at `j` was written, reading a section there gives it.
proof fn lemma_read_sym_tab_at(f: &KOFile, j: int, prefix: Seq<u8>, rest: Seq<u8>)
    requires
        ko_round_trips(f),
        2 <= j < f.headers_view().len(),
        f.headers_view()[j].section_kind == SectionKind::SymTab,
    ensures
        decode_one_section(
            prefix + section_bytes_at(f, j as u16) + rest,
            prefix.len() as int,
            f.headers_view()[j],
            j as u16,
        ) == (
            Ok::<KOSectionsView, KOParseErrorView>(section_one(f, j)),
            (prefix.len() + section_bytes_at(f, j as u16).len()) as int,
        ),
        concat_sections(section_one(f, j), sections_from(f, j + 1)) == sections_from(f, j),
{
    reveal(decode_one_section);
    let hs = f.headers_view();
    let sizes = f.sym_tabs_view().map_values(|t: SymbolTable| t.size_view());
    assert(has_section_at(f, j));
    let c = lemma_at_kind(hs, f.sym_tab_indices(), sizes, SectionKind::SymTab, j);
    lemma_others_at(f, j, SectionKind::SymTab);
    let t = f.sym_tabs_view()[c];
    assert(t.index_view()@ == j);
    assert(sizes[c] == t.size_view());
    assert(section_bytes_at(f, j as u16) == symbols_bytes(t.symbols_view()));
    assert(contents_round_trip(f));
    assert(f.sym_tabs_view()[c].size_view() == t.size_view());
    {
        symbols_round_trip(t.symbols_view(), prefix, rest, 0);
        lemma_symbols_bytes_len(t.symbols_view());
    }
    let v = f.sections_view();
    assert(v.sym_tabs.skip(c) =~= seq![v.sym_tabs[c]] + v.sym_tabs.skip(c + 1));
    assert(concat_sections(section_one(f, j), sections_from(f, j + 1)) =~= sections_from(f, j));
}

/// Where the DataSection of the header at `j` was written, reading a section there gives it.
proof fn lemma_read_data_section_at(f: &KOFile, j: int, prefix: Seq<u8>, rest: Seq<u8>)
    requires
        ko_round_trips(f),
        2 <= j < f.headers_view().len(),
        f.headers_view()[j].section_kind == SectionKind::Data,
    ensures
        decode_one_section(
            prefix + section_bytes_at(f, j as u16) + rest,
            prefix.len() as int,
            f.headers_view()[j],
            j as u16,
        ) == (
            Ok::<KOSectionsView, KOParseErrorView>(section_one(f, j)),
            (prefix.len() + section_bytes_at(f, j as u16).len()) as int,
        ),
        concat_sections(section_one(f, j), sections_from(f, j + 1)) == sections_from(f, j),
{
    reveal(decode_one_section);
    let hs = f.headers_view();
    let sizes = f.data_sections_view().map_values(|t: DataSection| t.size_view());
    assert(has_section_at(f, j));
    let c = lemma_at_kind(hs, f.data_section_indices(), sizes, SectionKind::Data, j);
    lemma_others_at(f, j, SectionKind::Data);
    let t = f.data_sections_view()[c];
    assert(t.index_view()@ == j);
    assert(sizes[c] == t.size_view());
    assert(section_bytes_at(f, j as u16) == values_bytes(t.values_view()));
    assert(contents_round_trip(f));
    assert(f.data_sections_view()[c].size_view() == t.size_view());
    {
        data_values_round_trip(t.values_view(), prefix, rest);
        lemma_values_bytes_len(t.values_view());
    }
    let v = f.sections_view();
    assert(v.data_sections.skip(c) =~= seq![v.data_sections[c]] + v.data_sections.skip(c + 1));
    assert(concat_sections(section_one(f, j), sections_from(f, j + 1)) =~= sections_from(f, j));
}

/// Where the FuncSection of the header at `j` was written, reading a section there gives it.
proof fn lemma_read_func_section_at(f: &KOFile, j: int, prefix: Seq<u8>, rest: Seq<u8>)
    requires
        ko_round_trips(f),
        2 <= j < f.headers_view().len(),
        f.headers_view()[j].section_kind == SectionKind::Func,
    ensures
        decode_one_section(
            prefix + section_bytes_at(f, j as u16) + rest,
            prefix.len() as int,
            f.headers_view()[j],
            j as u16,
        ) == (
            Ok::<KOSectionsView, KOParseErrorView>(section_one(f, j)),
            (prefix.len() + section_bytes_at(f, j as u16).len()) as int,
        ),
        concat_sections(section_one(f, j), sections_from(f, j + 1)) == sections_from(f, j),
{
    reveal(decode_one_section);
    let hs = f.headers_view();
    let sizes = f.func_sections_view().map_values(|t: FuncSection| t.size_view());
    assert(has_section_at(f, j));
    let c = lemma_at_kind(hs, f.func_section_indices(), sizes, SectionKind::Func, j);
    lemma_others_at(f, j, SectionKind::Func);
    let t = f.func_sections_view()[c];
    assert(t.index_view()@ == j);
    assert(sizes[c] == t.size_view());
    assert(section_bytes_at(f, j as u16) == ko_instrs_bytes(t.instrs_view()));
    assert(contents_round_trip(f));
    assert(f.func_sections_view()[c].size_view() == t.size_view());
    {
        func_instrs_round_trip(t.instrs_view(), prefix, rest);
        lemma_ko_instrs_bytes_len(t.instrs_view());
    }
    let v = f.sections_view();
    assert(v.func_sections.skip(c) =~= seq![v.func_sections[c]] + v.func_sections.skip(c + 1));
    assert(concat_sections(section_one(f, j), sections_from(f, j + 1)) =~= sections_from(f, j));
}

/// Where the ReldSection of the header at `j` was written, reading a section there gives it.
proof fn lemma_read_reld_section_at(f: &KOFile, j: int, prefix: Seq<u8>, rest: Seq<u8>)
    requires
        ko_round_trips(f),
        2 <= j < f.headers_view().len(),
        f.headers_view()[j].section_kind == SectionKind::Reld,
    ensures
        decode_one_section(
            prefix + section_bytes_at(f, j as u16) + rest,
            prefix.len() as int,
            f.headers_view()[j],
            j as u16,
        ) == (
            Ok::<KOSectionsView, KOParseErrorView>(section_one(f, j)),
            (prefix.len() + section_bytes_at(f, j as u16).len()) as int,
        ),
        concat_sections(section_one(f, j), sections_from(f, j + 1)) == sections_from(f, j),
{
    reveal(decode_one_section);
    let hs = f.headers_view();
    let sizes = f.reld_sections_view().map_values(|t: ReldSection| t.size_view());
    assert(has_section_at(f, j));
    let c = lemma_at_kind(hs, f.reld_section_indices(), sizes, SectionKind::Reld, j);
    lemma_others_at(f, j, SectionKind::Reld);
    let t = f.reld_sections_view()[c];
    assert(t.index_view()@ == j);
    assert(sizes[c] == t.size_view());
    assert(section_bytes_at(f, j as u16) == reld_entries_bytes(t.entries_view()));
    assert(contents_round_trip(f));
    assert(f.reld_sections_view()[c].size_view() == t.size_view());
    {
        reld_entries_round_trip(t.entries_view(), prefix, rest, 0);
        lemma_reld_entries_bytes_len(t.entries_view());
    }
    let v = f.sections_view();
    assert(v.reld_sections.skip(c) =~= seq![v.reld_sections[c]] + v.reld_sections.skip(c + 1));
    assert(concat_sections(section_one(f, j), sections_from(f, j + 1)) =~= sections_from(f, j));
}

/// Where the section of the header at `j` was written, reading a section there gives it, and
/// the sections from `j` on are it followed by those from `j + 1` on.
proof fn lemma_read_section_at(f: &KOFile, j: int, prefix: Seq<u8>, rest: Seq<u8>)
    requires
        ko_round_trips(f),
        2 <= j < f.headers_view().len(),
    ensures
        decode_one_section(
            prefix + section_bytes_at(f, j as u16) + rest,
            prefix.len() as int,
            f.headers_view()[j],
            j as u16,
        ) == (
            Ok::<KOSectionsView, KOParseErrorView>(section_one(f, j)),
            (prefix.len() + section_bytes_at(f, j as u16).len()) as int,
        ),
        concat_sections(section_one(f, j), sections_from(f, j + 1)) == sections_from(f, j),
{
    assert(has_section_at(f, j));
    match f.headers_view()[j].section_kind {
        SectionKind::StrTab => lemma_read_str_tab_at(f, j, prefix, rest),
        SectionKind::SymTab => lemma_read_sym_tab_at(f, j, prefix, rest),
        SectionKind::Data => lemma_read_data_section_at(f, j, prefix, rest),
        SectionKind::Func => lemma_read_func_section_at(f, j, prefix, rest),
        SectionKind::Reld => lemma_read_reld_section_at(f, j, prefix, rest),
        _ => {},
    }
}

/// The bytes of the sections below `m` begin those of the sections below `n`, for `m <= n`.
proof fn lemma_sections_bytes_prefix(f: &KOFile, m: nat, n: nat)
    requires
        m <= n,
    ensures
        sections_bytes(f, m).len() <= sections_bytes(f, n).len(),
        sections_bytes(f, n).take(sections_bytes(f, m).len() as int) == sections_bytes(f, m),
    decreases n,
{
    if m < n {
        lemma_sections_bytes_prefix(f, m, (n - 1) as nat);
        let a = sections_bytes(f, (n - 1) as nat);
        let b = section_bytes_at(f, (n - 1) as u16);
        let k = sections_bytes(f, m).len() as int;
        assert((a + b).take(k) =~= a.take(k));
    } else {
        let s = sections_bytes(f, n);
        assert(s.take(s.len() as int) =~= s);
    }
}

/// Where the sections of a file were written after `prefix`, reading them from the header at
/// `j` on gives the sections from `j` on, and the reader ends after the last of them.
proof fn lemma_read_sections_from(f: &KOFile, j: int, prefix: Seq<u8>, rest: Seq<u8>)
    requires
        ko_round_trips(f),
        2 <= j <= f.headers_view().len(),
    ensures
        decode_sections(
            prefix + sections_bytes(f, f.headers_view().len()) + rest,
            (prefix.len() + sections_bytes(f, j as nat).len()) as int,
            f.headers_view(),
            1,
            j as nat,
        ) == (
            Ok::<KOSectionsView, KOParseErrorView>(sections_from(f, j)),
            (prefix.len() + sections_bytes(f, f.headers_view().len()).len()) as int,
        ),
    decreases f.headers_view().len() - j,
{
    let hs = f.headers_view();
    let n = hs.len();
    let all = sections_bytes(f, n);
    let data = prefix + all + rest;
    if j == n {
        lemma_count_below_all(f.str_tab_indices(), j);
        lemma_count_below_all(f.sym_tab_indices(), j);
        lemma_count_below_all(f.data_section_indices(), j);
        lemma_count_below_all(f.func_section_indices(), j);
        lemma_count_below_all(f.reld_section_indices(), j);
        assert(sections_from(f, j) =~= no_sections());
    } else {
        let sj = sections_bytes(f, j as nat);
        let at = section_bytes_at(f, j as u16);
        lemma_sections_bytes_prefix(f, (j + 1) as nat, n);
        assert(sections_bytes(f, (j + 1) as nat) == sj + at);
        let tail = all.skip((sj.len() + at.len()) as int);
        assert(all =~= sj + at + tail);
        assert(data =~= (prefix + sj) + at + (tail + rest));
        lemma_read_section_at(f, j, prefix + sj, tail + rest);
        lemma_read_sections_from(f, j + 1, prefix, rest);
    }
}

/// In a file laid out as `ko_round_trips` says, the section header string table is the first
/// section written.
proof fn lemma_shstrtab_first(f: &KOFile)
    requires
        ko_round_trips(f),
    ensures
        sections_bytes(f, 2) == strtab_bytes(f.shstrtab_view().strings_view()),
{
    lemma_first_at_none(f.str_tab_indices(), 0);
    lemma_first_at_none(f.sym_tab_indices(), 0);
    lemma_first_at_none(f.data_section_indices(), 0);
    lemma_first_at_none(f.func_section_indices(), 0);
    lemma_first_at_none(f.reld_section_indices(), 0);
    assert(section_bytes_at(f, 0) =~= Seq::<u8>::empty());
    reveal_with_fuel(sections_bytes, 3);
    assert(sections_bytes(f, 0) =~= Seq::<u8>::empty());
    assert(sections_bytes(f, 2) =~= strtab_bytes(f.shstrtab_view().strings_view()));
}

/// A KO file that `ko_round_trips` describes is read back as itself from the bytes it is
/// written as, and the reader ends just after them.
#[verifier::rlimit(40)]
pub proof fn ko_file_round_trip(f: &KOFile)
    requires
        ko_round_trips(f),
    ensures
        decode_ko_file(ko_file_bytes(f), 0) == (
            Ok::<KOFileView, KOParseErrorView>(f@),
            ko_file_bytes(f).len() as int,
        ),
{
    broadcast use group_section_idx;

    let hs = f.headers_view();
    let n = hs.len();
    let hb = ko_header_bytes(f.header_view());
    let tb = section_headers_bytes(hs);
    let sb = sections_bytes(f, n);
    let data = ko_file_bytes(f);
    lemma_ko_header_size(f.header_view());
    lemma_section_headers_bytes_len(hs);
    // the header
    assert(data =~= seq![] + hb + (tb + sb));
    ko_header_round_trip(f.header_view(), seq![], tb + sb);
    // the section header table
    assert(data =~= hb + tb + sb);
    section_table_round_trip(hs, hb, sb);
    // the section header string table comes right after the table
    let ss = f.shstrtab_view().strings_view();
    lemma_shstrtab_first(f);
    lemma_sections_bytes_prefix(f, 2, n);
    lemma_strtab_bytes_len(ss);
    let after = sb.skip(strtab_bytes(ss).len() as int);
    assert(sb =~= strtab_bytes(ss) + after);
    assert(data =~= (hb + tb) + strtab_bytes(ss) + after);
    strtab_round_trip(ss, hb + tb, after, 0);
    // the other sections
    lemma_read_sections_from(f, 2, hb + tb, seq![]);
    assert(data =~= (hb + tb) + sb + seq![]);
    lemma_count_below_none(f.str_tab_indices(), 2);
    lemma_count_below_none(f.sym_tab_indices(), 2);
    lemma_count_below_none(f.data_section_indices(), 2);
    lemma_count_below_none(f.func_section_indices(), 2);
    lemma_count_below_none(f.reld_section_indices(), 2);
    assert(sections_from(f, 2) =~= f.sections_view());
}

/// A section that was read, of one of the kinds a KO file holds.
enum ParsedSection {
    StrTab(StringTable),
    SymTab(SymbolTable),
    Data(DataSection),
    Func(FuncSection),
    Reld(ReldSection),
    Nothing,
}

/// What a section that was read holds, as the one section of its kind.
spec fn parsed_view(p: ParsedSection) -> KOSectionsView {
    match p {
        ParsedSection::StrTab(t) => sections_of(seq![t], seq![], seq![], seq![], seq![]),
        ParsedSection::SymTab(t) => sections_of(seq![], seq![t], seq![], seq![], seq![]),
        ParsedSection::Data(t) => sections_of(seq![], seq![], seq![t], seq![], seq![]),
        ParsedSection::Func(t) => sections_of(seq![], seq![], seq![], seq![t], seq![]),
        ParsedSection::Reld(t) => sections_of(seq![], seq![], seq![], seq![], seq![t]),
        ParsedSection::Nothing => no_sections(),
    }
}

/// A finalized Kerbal Object file that can be written to a byte buffer, or converted
/// into a KOFile
#[derive(Debug)]
pub struct WritableKOFile(KOFile);

impl WritableKOFile {
    /// The file that was validated.
    pub closed spec fn file_view(&self) -> KOFile {
        self.0
    }

    /// Writes the binary representation of this KO file to the provided buffer
    pub fn write(&self, buf: &mut Vec<u8>)
        requires
            self.file_view().wf(),
        ensures
            final(buf)@ == old(buf)@ + ko_file_bytes(&self.file_view()),
    {
        let ko = &self.0;
        let ghost start = buf@;
        // Write the file header
        ko.header.write(buf);
        // First write all of the section headers in the section header table
        let ghost hs = ko.headers_view();
        let mut i: usize = 0;
        while i < ko.section_headers.len()
            invariant
                i <= hs.len(),
                hs == ko.headers_view(),
                buf@ == start + ko_header_bytes(ko.header_view()) + section_headers_bytes(
                    hs.take(i as int),
                ),
            decreases hs.len() - i,
        {
            assert(hs.take(i + 1).drop_last() == hs.take(i as int));
            ko.section_headers[i].write(buf);
            i = i + 1;
        }
        assert(hs.take(hs.len() as int) == hs);
        // Write out all of the sections in order
        let ghost before = buf@;
        let mut n: usize = 0;
        while n < ko.section_headers.len()
            invariant
                n <= hs.len(),
                hs == ko.headers_view(),
                hs.len() <= u16::MAX + 1,
                buf@ == before + sections_bytes(ko, n as nat),
            decreases hs.len() - n,
        {
            ko.write_section_at(SectionIdx(n as u16), buf);
            n = n + 1;
        }
    }

    /// Gets the KOFile back out of this
    pub fn get(self) -> (r: KOFile)
        ensures
            r == self.file_view(),
    {
        self.0
    }
}

impl From<WritableKOFile> for KOFile {
    fn from(w_kofile: WritableKOFile) -> (r: Self) {
        w_kofile.0
    }
}

impl vstd::std_specs::convert::FromSpecImpl<WritableKOFile> for KOFile {
    open spec fn obeys_from_spec() -> bool {
        true
    }

    open spec fn from_spec(w: WritableKOFile) -> KOFile {
        w.file_view()
    }
}

impl KOHeader {
    /// The header `KOHeader::new` makes.
    pub open spec fn new_spec(num_headers: u16, shstrtab_idx: SectionIdx) -> KOHeader {
        KOHeader { magic: ko_magic(), version: ko_version(), num_headers, shstrtab_idx }
    }
}

} // verus!
