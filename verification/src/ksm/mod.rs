//! # Kerbal Machine Code files
//!
//! This module is for describing, reading, and writing Kerbal Machine Code files
//!
//! Note that KSMFile::new() will for the most part, if written directly to a file, give you a valid KSM file.
//! However, that is just in format, and kOS will complain with a horribly unintelligible error message about it.
//!
//! There ***must*** be at least one debug entry in the debug section.
//!
//! If an error occurs in a part of the code section, if it is
//! filled with instructions, that is not mentioned in the debug section, kOS will say "maybe the error really is internal", so
//! if you can, provide valid debug sections.
use vstd::prelude::*;

use std::io::{Read, Write};

use flate2::read::GzDecoder;
use flate2::write::GzEncoder;
use flate2::Compression;

use crate::buffer::{byte_at, BufferIterator};
use crate::ksm::instructions::instr_round_trips;
use crate::primitives::{
    le_u32, lemma_le_u32, lemma_u32_at, read_u32_le, take_bytes, take_spec, write_u32_le, FromBytes,
};
use crate::value::{lemma_values_bytes_len, value_round_trips, KOSValue, KOSValueView};

pub mod builder;
pub mod errors;
pub mod instructions;
pub mod sections;

pub use builder::KSMFileBuilder;
pub use instructions::Instr;

use errors::{HeaderParseError, KSMParseError};
use sections::{
    arg_section_bytes, code_section_bytes, debug_section_bytes, decode_arg_section,
    decode_code_section, decode_debug_section, parsed_index_bytes, ArgIndex, ArgumentSection,
    CodeSection, CodeType, DebugEntry, DebugRange, DebugSection, code_section_round_trip,
    code_type_byte, debug_section_round_trip, entry_round_trips, arg_section_round_trip,
    lemma_instrs_bytes_len,
};

verus! {

/// Describes the number of bytes that are required to store a given integer.
///
/// This is used to keep track of the number of bytes required to index into
/// the KSM argument section, as well as the number of bytes required to represent
/// a range in the debug section of a KSM file.
///
/// This provides an advantage over a raw integer type, because these
/// values are the only ones currently supported by kOS and are discrete.
#[derive(Debug, Copy, Clone, PartialEq, Eq, Hash, Ord, PartialOrd, Structural)]
pub enum IntSize {
    /// 1
    One,
    /// 2
    Two,
    /// 3
    Three,
    /// 4
    Four,
}

impl View for IntSize {
    type V = IntSize;

    open spec fn view(&self) -> IntSize {
        *self
    }
}

/// The number of bytes an IntSize stands for.
pub open spec fn width(w: IntSize) -> u8 {
    match w {
        IntSize::One => 1,
        IntSize::Two => 2,
        IntSize::Three => 3,
        IntSize::Four => 4,
    }
}

/// The IntSize that stands for `n` bytes, if there is one.
pub open spec fn int_size_of(n: u8) -> Option<IntSize> {
    if n == 1 {
        Some(IntSize::One)
    } else if n == 2 {
        Some(IntSize::Two)
    } else if n == 3 {
        Some(IntSize::Three)
    } else if n == 4 {
        Some(IntSize::Four)
    } else {
        None
    }
}

/// An IntSize is stored as the number of bytes it stands for, 1 to 4, and holds exactly the
/// values that fit in that many bytes; exactly the bytes 1 to 4 stand for one, each for its
/// own.
pub proof fn int_size_bytes(n: u8)
    ensures
        width(IntSize::One) == 1 && int_size_max(IntSize::One) == 0xff,
        width(IntSize::Two) == 2 && int_size_max(IntSize::Two) == 0xffff,
        width(IntSize::Three) == 3 && int_size_max(IntSize::Three) == 0xffffff,
        width(IntSize::Four) == 4 && int_size_max(IntSize::Four) == 0xffff_ffff,
        int_size_of(n) matches Some(w) ==> width(w) == n,
        int_size_of(n) is None <==> (n == 0 || n > 4),
{
}

impl TryFrom<u8> for IntSize {
    type Error = u8;

    fn try_from(value: u8) -> (r: Result<Self, Self::Error>) {
        match value {
            1 => Ok(Self::One),
            2 => Ok(Self::Two),
            3 => Ok(Self::Three),
            4 => Ok(Self::Four),
            _ => Err(value),
        }
    }
}

impl vstd::std_specs::convert::TryFromSpecImpl<u8> for IntSize {
    open spec fn obeys_try_from_spec() -> bool {
        true
    }

    open spec fn try_from_spec(n: u8) -> Result<IntSize, u8> {
        match int_size_of(n) {
            Some(w) => Ok(w),
            None => Err(n),
        }
    }
}

impl From<IntSize> for u8 {
    fn from(num: IntSize) -> (r: Self) {
        match num {
            IntSize::One => 1,
            IntSize::Two => 2,
            IntSize::Three => 3,
            IntSize::Four => 4,
        }
    }
}

impl vstd::std_specs::convert::FromSpecImpl<IntSize> for u8 {
    open spec fn obeys_from_spec() -> bool {
        true
    }

    open spec fn from_spec(w: IntSize) -> u8 {
        width(w)
    }
}

/// The big-endian bytes of the low `width(w)` bytes of `value`.
pub open spec fn var_int_bytes(value: u32, w: IntSize) -> Seq<u8> {
    match w {
        IntSize::One => seq![(value % 0x100) as u8],
        IntSize::Two => seq![((value / 0x100) % 0x100) as u8, (value % 0x100) as u8],
        IntSize::Three => seq![
            ((value / 0x10000) % 0x100) as u8,
            ((value / 0x100) % 0x100) as u8,
            (value % 0x100) as u8,
        ],
        IntSize::Four => seq![
            (value / 0x1000000) as u8,
            ((value / 0x10000) % 0x100) as u8,
            ((value / 0x100) % 0x100) as u8,
            (value % 0x100) as u8,
        ],
    }
}

/// The unsigned integer whose big-endian bytes are `b` (of length 1 to 4).
pub open spec fn var_int_value(b: Seq<u8>) -> u32 {
    if b.len() == 1 {
        b[0] as u32
    } else if b.len() == 2 {
        (b[0] * 0x100 + b[1]) as u32
    } else if b.len() == 3 {
        (b[0] * 0x10000 + b[1] * 0x100 + b[2]) as u32
    } else {
        (b[0] * 0x1000000 + b[1] * 0x10000 + b[2] * 0x100 + b[3]) as u32
    }
}

/// The largest value that an IntSize can hold.
pub open spec fn int_size_max(w: IntSize) -> u32 {
    match w {
        IntSize::One => 0xff,
        IntSize::Two => 0xffff,
        IntSize::Three => 0xffffff,
        IntSize::Four => 0xffff_ffff,
    }
}

/// What `read_var_int` gives at `pos`: a big-endian integer of `width(w)` bytes.
pub open spec fn decode_var_int(data: Seq<u8>, pos: int, w: IntSize) -> (Result<u32, ()>, int) {
    match take_spec(data, pos, width(w) as int) {
        (Some(b), p) => (Ok(var_int_value(b)), p),
        (None, p) => (Err(()), p),
    }
}

// An internal function for reading an integer with a variable number of bytes.
pub(crate) fn read_var_int(source: &mut BufferIterator, width: IntSize) -> (r: Result<u32, ()>)
    requires
        old(source).wf(),
    ensures
        final(source).wf(),
        final(source).data() == old(source).data(),
        (r, final(source).pos()) == decode_var_int(old(source).data(), old(source).pos(), width),
{
    let n: usize = match width {
        IntSize::One => 1,
        IntSize::Two => 2,
        IntSize::Three => 3,
        IntSize::Four => 4,
    };
    match take_bytes(source, n) {
        Some(b) => {
            let v: u32 = if n == 1 {
                b[0] as u32
            } else if n == 2 {
                (b[0] as u32) * 0x100 + (b[1] as u32)
            } else if n == 3 {
                (b[0] as u32) * 0x10000 + (b[1] as u32) * 0x100 + (b[2] as u32)
            } else {
                (b[0] as u32) * 0x1000000 + (b[1] as u32) * 0x10000 + (b[2] as u32) * 0x100 + (
                b[3] as u32)
            };
            Ok(v)
        },
        None => Err(()),
    }
}

// An internal function for writing an integer with a variable number of bytes.
pub(crate) fn write_var_int(value: u32, buf: &mut Vec<u8>, width: IntSize)
    ensures
        final(buf)@ == old(buf)@ + var_int_bytes(value, width),
{
    match width {
        IntSize::One => {
            buf.push((value % 0x100) as u8);
        },
        IntSize::Two => {
            buf.push(((value / 0x100) % 0x100) as u8);
            buf.push((value % 0x100) as u8);
        },
        IntSize::Three => {
            buf.push(((value / 0x10000) % 0x100) as u8);
            buf.push(((value / 0x100) % 0x100) as u8);
            buf.push((value % 0x100) as u8);
        },
        IntSize::Four => {
            buf.push((value / 0x1000000) as u8);
            buf.push(((value / 0x10000) % 0x100) as u8);
            buf.push(((value / 0x100) % 0x100) as u8);
            buf.push((value % 0x100) as u8);
        },
    }
}

/// The IntSize that `fewest_bytes_to_hold` picks for `value`: the fewest whole bytes that
/// hold it as an unsigned integer.
pub open spec fn fewest_bytes(value: int) -> IntSize {
    if value <= 0xff {
        IntSize::One
    } else if value <= 0xffff {
        IntSize::Two
    } else if value <= 0xffffff {
        IntSize::Three
    } else {
        IntSize::Four
    }
}

// An internal function for finding out the fewest number of bytes required to hold a value,
// used for determining the size of var ints
pub(crate) fn fewest_bytes_to_hold(value: u32) -> (r: IntSize)
    ensures
        r == fewest_bytes(value as int),
{
    if value <= 0xff {
        IntSize::One
    } else if value <= 0xffff {
        IntSize::Two
    } else if value <= 0xffffffu32 {
        // fits in 24 unsigned bits
        IntSize::Three
    } else {
        IntSize::Four
    }
}

/// A value written with an IntSize that can hold it is read back as itself.
pub proof fn var_int_round_trip(value: u32, w: IntSize)
    requires
        value <= int_size_max(w),
    ensures
        var_int_bytes(value, w).len() == width(w),
        var_int_value(var_int_bytes(value, w)) == value,
{
}

/// The IntSize picked for a value can hold it.
pub proof fn fewest_bytes_holds(value: u32)
    ensures
        value <= int_size_max(fewest_bytes(value as int)),
{
}

// The bytes 'k' 3 'X' 'E', read as a little-endian u32
const KSM_MAGIC_NUMBER: u32 = 0x4558036b;

/// The number that every KSM file starts with: the bytes `k`, 3, `X`, `E` read as a
/// little-endian 32-bit integer.
pub open spec fn ksm_magic() -> u32 {
    0x4558036b
}

/// A KSM file begins with the bytes `k`, 3, `X`, `E`.
pub proof fn ksm_magic_bytes()
    ensures
        le_u32(ksm_magic()) == seq!['k' as u8, 3u8, 'X' as u8, 'E' as u8],
{
    assert(le_u32(ksm_magic()) =~= seq!['k' as u8, 3u8, 'X' as u8, 'E' as u8]);
}

/// Names the gzip stream that flate2 writes for `data` at its best compression level, with
/// the default header (no file name, no time stamp).
pub uninterp spec fn gzip_best(data: Seq<u8>) -> Seq<u8>;

/// Names what flate2's gzip decoder (`read::GzDecoder`, read to the end) gives for `data`:
/// the decompressed bytes, or None where `data` does not start with a gzip stream it can
/// decode; and how many bytes of `data` it took in, through its buffered reads.
pub uninterp spec fn gunzip(data: Seq<u8>) -> (Option<Seq<u8>>, nat);

/// Compresses `data` into a gzip stream with flate2's `GzEncoder` at `Compression::best()`.
///
/// Trusted: the result is the stream named `gzip_best(data)`, and like every Vec it holds at
/// most isize::MAX bytes. Writing into a Vec cannot fail, so the calls that could report an
/// I/O error never do.
#[verifier::external_body]
fn gzip_compress(data: &[u8]) -> (r: Vec<u8>)
    ensures
        r@ == gzip_best(data@),
        r@.len() <= isize::MAX,
{
    let mut encoder = GzEncoder::new(Vec::new(), Compression::best());
    encoder.write_all(data).expect("Error compressing KSM file");
    encoder.finish().expect("Error finishing KSM file compression")
}

/// Decompresses the gzip stream at the start of `data` with flate2's `read::GzDecoder`,
/// reading it to the end, and counts the bytes of `data` that the decoder took in.
///
/// Trusted: the call gives what `gunzip(data)` names: it succeeds exactly when that names
/// some bytes, and then gives them (at most isize::MAX of them, as in every Vec), and it
/// takes in the number of bytes named there, at most the length of `data`. A stream that
/// `GzEncoder` wrote for some bytes is decoded back into those bytes, and all of it is taken
/// in, since the decoder reads up to the stream's trailer. What error value comes back on
/// failure is not stated.
#[verifier::external_body]
fn gzip_decompress(data: &[u8]) -> (r: (Result<Vec<u8>, std::io::Error>, usize))
    ensures
        r.1 == gunzip(data@).1,
        r.1 <= data@.len(),
        r.0.is_ok() == gunzip(data@).0.is_some(),
        r.0.is_ok() ==> r.0.unwrap()@ == gunzip(data@).0.unwrap() && r.0.unwrap()@.len()
            <= isize::MAX,
        forall|x: Seq<u8>|
            data@ == gzip_best(x) ==> r.0.is_ok() && r.0.unwrap()@ == x && r.1 == data@.len(),
{
    let mut cursor = std::io::Cursor::new(data);
    let mut decompressed: Vec<u8> = Vec::with_capacity(data.len());
    let result = GzDecoder::new(&mut cursor).read_to_end(&mut decompressed);
    let consumed = cursor.position() as usize;
    match result {
        Ok(_) => (Ok(decompressed), consumed),
        Err(e) => (Err(e), consumed),
    }
}

/// A mutable iterator over a slice, declared so that it can be handed out.
#[verifier::external_type_specification]
#[verifier::external_body]
#[verifier::reject_recursive_types(T)]
pub struct ExIterMut<'a, T: 'a>(std::slice::IterMut<'a, T>);

/// Hands out std's `slice::iter_mut` over the code sections `v`.
///
/// Trusted: nothing is stated of the iterator, nor of what a caller writes through it into
/// `v`.
#[verifier::external_body]
fn code_sections_iter_mut(v: &mut Vec<CodeSection>) -> std::slice::IterMut<'_, CodeSection> {
    v.iter_mut()
}

/// A KSM file header.
///
/// The spec only requires it to contain the file's magic to identify it as a KSM file.
/// So currently this type isn't extremely useful.
#[derive(Debug, Clone, Copy)]
pub struct KSMHeader {
    magic: u32,
}

impl KSMHeader {
    /// The magic number this header holds.
    pub closed spec fn magic_view(&self) -> u32 {
        self.magic
    }

    /// Creates a new KSM file header
    pub fn new() -> (r: Self)
        ensures
            r.magic_view() == ksm_magic(),
    {
        KSMHeader { magic: KSM_MAGIC_NUMBER }
    }

    /// Parses a KSM file header from a source buffer
    ///
    /// This can fail if the source doesn't have enough bytes to parse,
    /// or if the first 4 bytes do not correspond to the KSM file header "magic number"
    pub fn parse(source: &mut BufferIterator) -> (r: Result<Self, HeaderParseError>)
        requires
            old(source).wf(),
        ensures
            final(source).wf(),
            final(source).data() == old(source).data(),
            final(source).pos() == <u32 as FromBytes>::decode(old(source).data(), old(source).pos()).1,
            match <u32 as FromBytes>::decode(old(source).data(), old(source).pos()).0 {
                Err(_) => r == Err::<Self, HeaderParseError>(HeaderParseError::EOF),
                Ok(m) => if m == ksm_magic() {
                    r matches Ok(h) && h.magic_view() == ksm_magic()
                } else {
                    r == Err::<Self, HeaderParseError>(HeaderParseError::InvalidMagic(m))
                },
            },
    {
        let magic = match read_u32_le(source) {
            Ok(m) => m,
            Err(_) => {
                return Err(HeaderParseError::EOF);
            },
        };
        if magic == KSM_MAGIC_NUMBER {
            Ok(Self::new())
        } else {
            Err(HeaderParseError::InvalidMagic(magic))
        }
    }

    /// Appends the byte representation of this file header to a buffer of bytes
    pub fn write(&self, buf: &mut Vec<u8>)
        ensures
            final(buf)@ == old(buf)@ + le_u32(self.magic_view()),
    {
        write_u32_le(self.magic, buf)
    }
}

impl Default for KSMHeader {
    fn default() -> (r: Self)
        ensures
            r.magic_view() == ksm_magic(),
    {
        Self::new()
    }
}

/// A code section taken as its type and its instructions.
pub open spec fn code_view(c: CodeSection) -> (CodeType, Seq<Instr>) {
    (c.code_type(), c.instructions_view())
}

/// The mathematical form of a KSM file: the contents of its sections.
pub struct KSMFileView {
    /// The magic number of the header
    pub magic: u32,
    /// The number of bytes an index into the argument section is written with
    pub index_bytes: IntSize,
    /// The arguments, in order
    pub arguments: Seq<KOSValueView>,
    /// The code sections, in order
    pub code_sections: Seq<(CodeType, Seq<Instr>)>,
    /// The number of bytes each debug range number is written with
    pub range_size: IntSize,
    /// The debug entries, in order
    pub debug_entries: Seq<(isize, Seq<DebugRange>)>,
}

/// The bytes of a sequence of code sections, one after the other.
pub open spec fn code_sections_bytes(cs: Seq<(CodeType, Seq<Instr>)>, w: IntSize) -> Seq<u8>
    decreases cs.len(),
{
    if cs.len() == 0 {
        seq![]
    } else {
        code_sections_bytes(cs.drop_last(), w) + code_section_bytes(cs.last().0, cs.last().1, w)
    }
}

/// The bytes a KSM file holds before it is compressed: the magic, the argument section,
/// the code sections and the debug section.
pub open spec fn ksm_body_bytes(v: KSMFileView) -> Seq<u8> {
    le_u32(v.magic) + arg_section_bytes(v.index_bytes, v.arguments) + code_sections_bytes(
        v.code_sections,
        v.index_bytes,
    ) + debug_section_bytes(v.range_size, v.debug_entries)
}

/// Reads code sections from `pos`, where a `%` stands, until a `%D` begins the debug
/// section; gives the code sections and the position of the `D`.
pub open spec fn decode_code_sections(data: Seq<u8>, pos: int, w: IntSize) -> (
    Result<Seq<(CodeType, Seq<Instr>)>, KSMParseError>,
    int,
)
    decreases data.len() - pos,
{
    match byte_at(data, pos + 1) {
        None => (Err(KSMParseError::MissingSectionType((pos + 1) as usize)), pos + 1),
        Some(b) => if b == 0x44 {
            (Ok(seq![]), pos + 1)
        } else {
            match decode_code_section(data, pos + 1, w) {
                (Err(e), q) => (Err(KSMParseError::CodeSectionParseError(e)), q),
                (Ok(c), q) => if q <= pos || q > data.len() {
                    (Ok(seq![]), q)
                } else {
                    match decode_code_sections(data, q, w) {
                        (Ok(cs), r) => (Ok(seq![c] + cs), r),
                        (Err(e), r) => (Err(e), r),
                    }
                },
            }
        },
    }
}

/// What parsing the decompressed contents of a KSM file gives.
pub open spec fn decode_ksm_body(data: Seq<u8>) -> Result<KSMFileView, KSMParseError> {
    match <u32 as FromBytes>::decode(data, 0) {
        (Err(_), _) => Err(KSMParseError::HeaderError(HeaderParseError::EOF)),
        (Ok(m), p) => if m != ksm_magic() {
            Err(KSMParseError::HeaderError(HeaderParseError::InvalidMagic(m)))
        } else {
            match decode_arg_section(data, p) {
                (Err(e), _) => Err(KSMParseError::ArgumentSectionParseError(e)),
                (Ok((w, vs)), q) => {
                    let ib = parsed_index_bytes(w, vs);
                    match decode_code_sections(data, q, ib) {
                        (Err(e), _) => Err(e),
                        (Ok(cs), r) => match decode_debug_section(data, r) {
                            (Err(e), _) => Err(KSMParseError::DebugSectionParseError(e)),
                            (Ok((rw, es)), _) => Ok(
                                KSMFileView {
                                    magic: m,
                                    index_bytes: ib,
                                    arguments: vs,
                                    code_sections: cs,
                                    range_size: rw,
                                    debug_entries: es,
                                },
                            ),
                        },
                    }
                },
            }
        },
    }
}

/// An in-memory representation of a KSM file
///
/// Can be modified, written, or read.
#[derive(Debug)]
pub struct KSMFile {
    /// This file's header
    pub header: KSMHeader,
    /// This file's argument section
    pub arg_section: ArgumentSection,
    /// This file's debug section
    pub debug_section: DebugSection,
    code_sections: Vec<CodeSection>,
}

impl View for KSMFile {
    type V = KSMFileView;

    closed spec fn view(&self) -> KSMFileView {
        KSMFileView {
            magic: self.header.magic_view(),
            index_bytes: self.arg_section.index_bytes(),
            arguments: self.arg_section.arguments_view(),
            code_sections: self.code_sections@.map_values(|c: CodeSection| code_view(c)),
            range_size: self.debug_section.range_width(),
            debug_entries: self.debug_section.entries_view(),
        }
    }
}

impl KSMFile {
    /// The argument section of this file, which must stay well formed.
    pub closed spec fn args_ok(&self) -> bool {
        self.arg_section.wf()
    }

    /// Creates a new KSM file that is empty except for the required argument section, and debug section
    pub fn new() -> (r: Self)
        ensures
            r.args_ok(),
            r@.magic == ksm_magic(),
            r@.index_bytes == IntSize::One,
            r@.arguments == Seq::<KOSValueView>::empty(),
            r@.code_sections == Seq::<(CodeType, Seq<Instr>)>::empty(),
            r@.range_size == IntSize::One,
            r@.debug_entries == Seq::<(isize, Seq<DebugRange>)>::empty(),
    {
        let r = Self {
            header: KSMHeader::new(),
            arg_section: ArgumentSection::new(),
            code_sections: Vec::new(),
            debug_section: DebugSection::new(),
        };
        assert(r.code_sections@.map_values(|c: CodeSection| code_view(c)) =~= Seq::<
            (CodeType, Seq<Instr>),
        >::empty());
        r
    }

    /// Creates a new KSM file using the provided argument section, code sections, and debug section
    pub fn new_from_parts(
        arg_section: ArgumentSection,
        code_sections: Vec<CodeSection>,
        debug_section: DebugSection,
    ) -> (r: Self)
        ensures
            r.args_ok() == arg_section.wf(),
            r@.magic == ksm_magic(),
            r@.index_bytes == arg_section.index_bytes(),
            r@.arguments == arg_section.arguments_view(),
            r@.code_sections == code_sections@.map_values(|c: CodeSection| code_view(c)),
            r@.range_size == debug_section.range_width(),
            r@.debug_entries == debug_section.entries_view(),
    {
        Self { header: KSMHeader::new(), arg_section, code_sections, debug_section }
    }

    /// A convenience function to add a value to this file's argument section
    pub fn add_argument(&mut self, argument: KOSValue) -> (r: ArgIndex)
        requires
            old(self).args_ok(),
            3 + crate::value::values_size(old(self)@.arguments) + crate::value::value_size(argument@)
                <= usize::MAX,
        ensures
            final(self).args_ok(),
            final(self)@ == (KSMFileView {
                index_bytes: final(self)@.index_bytes,
                arguments: old(self)@.arguments.push(argument@),
                ..old(self)@
            }),
            r@ == sections::arg_offset(old(self)@.arguments, old(self)@.arguments.len() as int),
    {
        self.arg_section.add(argument)
    }

    /// A convenience function to add a debug entry to this file's debug section
    pub fn add_debug_entry(&mut self, entry: DebugEntry)
        ensures
            final(self).args_ok() == old(self).args_ok(),
            final(self)@ == (KSMFileView {
                range_size: sections::grown_range_size(old(self)@.range_size, entry.ranges_view()),
                debug_entries: old(self)@.debug_entries.push(sections::entry_view(entry)),
                ..old(self)@
            }),
    {
        self.debug_section.add(entry)
    }

    /// Returns an iterator over all of the code sections in this file
    pub fn code_sections(&self) -> (r: std::slice::Iter<'_, CodeSection>)
        ensures
            vstd::std_specs::slice::into_iter_elts(r).map_values(|c: CodeSection| code_view(c))
                == self@.code_sections,
    {
        self.code_sections.as_slice().iter()
    }

    /// Returns a mutable iterator over all of the code sections in this file
    pub fn code_sections_mut(&mut self) -> (r: std::slice::IterMut<'_, CodeSection>)
        ensures
            final(self).args_ok() == old(self).args_ok(),
            final(self)@ == (KSMFileView { code_sections: final(self)@.code_sections, ..old(self)@ }),
    {
        code_sections_iter_mut(&mut self.code_sections)
    }

    /// Adds a new code section to this file
    pub fn add_code_section(&mut self, code_section: CodeSection)
        ensures
            final(self).args_ok() == old(self).args_ok(),
            final(self)@ == (KSMFileView {
                code_sections: old(self)@.code_sections.push(code_view(code_section)),
                ..old(self)@
            }),
    {
        self.code_sections.push(code_section);
        assert(self.code_sections@.map_values(|c: CodeSection| code_view(c)) =~= old(self)@.code_sections.push(
            code_view(code_section),
        ));
    }

    /// Parses an entire KSMFile from a byte buffer: the buffer is decompressed as a gzip
    /// stream from its first byte, whatever the iterator's position, and the bytes the
    /// decompression took in are dropped from the front of the buffer (whether or not it
    /// succeeded), with the position left as it is; then the header, the argument section,
    /// the code sections and the debug section are read in turn.
    pub fn parse(source: &mut BufferIterator) -> (r: Result<Self, KSMParseError>)
        ensures
            final(source).pos() == old(source).pos(),
            final(source).data() == old(source).data().skip(gunzip(old(source).data()).1 as int),
            gunzip(old(source).data()).0 is None ==> r matches Err(
                KSMParseError::DecompressionError(_),
            ),
            gunzip(old(source).data()).0 matches Some(body) ==> match decode_ksm_body(body) {
                Ok(v) => r matches Ok(f) && f@ == v && f.args_ok(),
                Err(e) => r matches Err(e2) && e2 == e,
            },
            forall|body: Seq<u8>|
                old(source).data() == gzip_best(body) ==> final(source).data() == Seq::<u8>::empty()
                    && match decode_ksm_body(body) {
                    Ok(v) => r matches Ok(f) && f@ == v && f.args_ok(),
                    Err(e) => r matches Err(e2) && e2 == e,
                },
    {
        let (result, consumed) = gzip_decompress(source.source_bytes());
        source.drop_front(consumed);
        let decompressed = match result {
            Ok(d) => d,
            Err(e) => {
                return Err(KSMParseError::DecompressionError(e));
            },
        };
        Self::parse_decompressed(decompressed.as_slice())
    }

    /// Parses the decompressed contents of a KSM file: the header, the argument section, the
    /// code sections and the debug section, in turn.
    pub fn parse_decompressed(body: &[u8]) -> (r: Result<Self, KSMParseError>)
        requires
            body@.len() <= isize::MAX,
        ensures
            match decode_ksm_body(body@) {
                Ok(v) => r matches Ok(f) && f@ == v && f.args_ok(),
                Err(e) => r matches Err(e2) && e2 == e,
            },
    {
        let mut source = BufferIterator::new(body);
        let ghost data = body@;
        let header = match KSMHeader::parse(&mut source) {
            Ok(h) => h,
            Err(e) => {
                return Err(KSMParseError::HeaderError(e));
            },
        };
        let arg_section = match ArgumentSection::parse(&mut source) {
            Ok(a) => a,
            Err(e) => {
                return Err(KSMParseError::ArgumentSectionParseError(e));
            },
        };
        let index_bytes = arg_section.num_index_bytes();
        let ghost start = source.pos();
        proof {
            sections::lemma_arg_section_end(data, 4);
        }
        let mut code_sections: Vec<CodeSection> = Vec::new();
        let mut failure: Option<KSMParseError> = None;
        assert(code_sections@.map_values(|c: CodeSection| code_view(c)) =~= Seq::<
            (CodeType, Seq<Instr>),
        >::empty());
        loop
            invariant_except_break
                failure is None,
                byte_at(data, source.pos()) == Some(0x25u8),
                decode_code_sections(data, start, index_bytes) == match decode_code_sections(
                    data,
                    source.pos(),
                    index_bytes,
                ) {
                    (Ok(cs), q) => (Ok(code_sections@.map_values(|c: CodeSection| code_view(c)) + cs), q),
                    (Err(e), q) => (Err::<Seq<(CodeType, Seq<Instr>)>, KSMParseError>(e), q),
                },
            invariant
                source.wf(),
                source.data() == data,
            ensures
                match failure {
                    Some(e) => decode_code_sections(data, start, index_bytes).0 == Err::<
                        Seq<(CodeType, Seq<Instr>)>,
                        KSMParseError,
                    >(e),
                    None => decode_code_sections(data, start, index_bytes) == (
                        Ok::<Seq<(CodeType, Seq<Instr>)>, KSMParseError>(
                            code_sections@.map_values(|c: CodeSection| code_view(c)),
                        ),
                        source.pos(),
                    ) && byte_at(data, source.pos()) == Some(0x44u8),
                },
            decreases data.len() - source.pos(),
        {
            // Only a `%` ends the argument section or a code section, so this is one
            source.next();
            let next = match source.peek() {
                Some(b) => b,
                None => {
                    failure = Some(KSMParseError::MissingSectionType(source.current_index()));
                    break ;
                },
            };
            // This means the next section is a debug section
            if next == 0x44 {
                break ;
            }
            let ghost here = source.pos();
            proof {
                sections::lemma_code_section_end(data, here, index_bytes);
                sections::lemma_instrs_forward(data, here + 1, index_bytes);
            }
            match CodeSection::parse(&mut source, index_bytes) {
                Ok(code_section) => {
                    let ghost before = code_sections@.map_values(|c: CodeSection| code_view(c));
                    code_sections.push(code_section);
                    proof {
                        assert(code_sections@.map_values(|c: CodeSection| code_view(c)) =~= before.push(
                            code_view(code_section),
                        ));
                        match decode_code_sections(data, source.pos(), index_bytes) {
                            (Ok(cs), q) => {
                                assert(before + (seq![code_view(code_section)] + cs) == before.push(
                                    code_view(code_section),
                                ) + cs);
                            },
                            _ => {},
                        }
                    }
                },
                Err(e) => {
                    failure = Some(KSMParseError::CodeSectionParseError(e));
                    break ;
                },
            }
        }
        if let Some(e) = failure {
            return Err(e);
        }
        let debug_section = match DebugSection::parse(&mut source) {
            Ok(d) => d,
            Err(e) => {
                return Err(KSMParseError::DebugSectionParseError(e));
            },
        };
        let r = Self { header, arg_section, code_sections, debug_section };
        Ok(r)
    }

    /// Writes the binary representation of this KSM file to the provided buffer: the
    /// header and the sections, compressed together as one gzip stream.
    pub fn write(&self, buf: &mut Vec<u8>)
        ensures
            final(buf)@ == old(buf)@ + gzip_best(ksm_body_bytes(self@)),
    {
        let mut uncompressed_buf: Vec<u8> = Vec::with_capacity(2048);
        self.header.write(&mut uncompressed_buf);
        self.arg_section.write(&mut uncompressed_buf);
        let index_bytes = self.arg_section.num_index_bytes();
        let ghost head = uncompressed_buf@;
        let ghost cs = self@.code_sections;
        let mut i: usize = 0;
        while i < self.code_sections.len()
            invariant
                i <= self.code_sections@.len(),
                cs == self@.code_sections,
                index_bytes == self@.index_bytes,
                uncompressed_buf@ == head + code_sections_bytes(cs.take(i as int), index_bytes),
            decreases self.code_sections@.len() - i,
        {
            proof {
                assert(cs.take(i + 1).drop_last() == cs.take(i as int));
                assert(cs[i as int] == code_view(self.code_sections@[i as int]));
            }
            self.code_sections[i].write(&mut uncompressed_buf, index_bytes);
            i = i + 1;
        }
        assert(cs.take(cs.len() as int) == cs);
        self.debug_section.write(&mut uncompressed_buf);
        let mut zipped_contents = gzip_compress(uncompressed_buf.as_slice());
        buf.append(&mut zipped_contents);
    }
}

impl Default for KSMFile {
    fn default() -> (r: Self)
        ensures
            r.args_ok(),
            r@.magic == ksm_magic(),
            r@.arguments == Seq::<KOSValueView>::empty(),
            r@.code_sections == Seq::<(CodeType, Seq<Instr>)>::empty(),
            r@.debug_entries == Seq::<(isize, Seq<DebugRange>)>::empty(),
    {
        Self::new()
    }
}

/// The bytes of code sections that start with `c` are those of `c` followed by those of the
/// rest.
pub proof fn lemma_code_sections_prepend(
    c: (CodeType, Seq<Instr>),
    cs: Seq<(CodeType, Seq<Instr>)>,
    w: IntSize,
)
    ensures
        code_sections_bytes(seq![c] + cs, w) == code_section_bytes(c.0, c.1, w)
            + code_sections_bytes(cs, w),
    decreases cs.len(),
{
    let t = seq![c] + cs;
    if cs.len() == 0 {
        assert(t.drop_last() == Seq::<(CodeType, Seq<Instr>)>::empty());
        assert(t.last() == c);
        assert(code_sections_bytes(t.drop_last(), w) == Seq::<u8>::empty());
        assert(code_sections_bytes(cs, w) == Seq::<u8>::empty());
        assert(code_sections_bytes(t, w) =~= code_section_bytes(c.0, c.1, w) + code_sections_bytes(
            cs,
            w,
        ));
    } else {
        lemma_code_sections_prepend(c, cs.drop_last(), w);
        assert(t.drop_last() == seq![c] + cs.drop_last());
        assert(t.last() == cs.last());
        let x = code_section_bytes(c.0, c.1, w);
        let y = code_sections_bytes(cs.drop_last(), w);
        let z = code_section_bytes(cs.last().0, cs.last().1, w);
        assert(code_sections_bytes(t, w) == code_sections_bytes(t.drop_last(), w) + z);
        assert(code_sections_bytes(cs, w) == y + z);
        assert(x + y + z =~= x + (y + z));
    }
}

/// Whether every instruction of the code sections `cs` reads back as itself with operands
/// of `w` bytes.
pub open spec fn code_sections_round_trip_ok(cs: Seq<(CodeType, Seq<Instr>)>, w: IntSize) -> bool {
    forall|c: int, k: int|
        0 <= c < cs.len() && 0 <= k < cs[c].1.len() ==> instr_round_trips(#[trigger] cs[c].1[k], w)
}

/// Reading code sections where a code section that reads back as itself was written: that
/// code section, then the code sections read after it.
proof fn lemma_code_sections_cons(
    c: (CodeType, Seq<Instr>),
    tail: Seq<(CodeType, Seq<Instr>)>,
    w: IntSize,
    prefix: Seq<u8>,
    rest: Seq<u8>,
    q: int,
)
    requires
        forall|k: int| 0 <= k < c.1.len() ==> instr_round_trips(#[trigger] c.1[k], w),
        rest.len() > 0,
        rest[0] == 0x25,
        decode_code_sections(
            prefix + code_section_bytes(c.0, c.1, w) + rest,
            (prefix.len() + code_section_bytes(c.0, c.1, w).len()) as int,
            w,
        ) == (Ok::<Seq<(CodeType, Seq<Instr>)>, KSMParseError>(tail), q),
    ensures
        decode_code_sections(prefix + code_section_bytes(c.0, c.1, w) + rest, prefix.len() as int, w)
            == (Ok::<Seq<(CodeType, Seq<Instr>)>, KSMParseError>(seq![c] + tail), q),
{
    let data = prefix + code_section_bytes(c.0, c.1, w) + rest;
    let n = prefix.len() as int;
    code_section_round_trip(c.0, c.1, w, prefix, rest);
    lemma_instrs_bytes_len(c.1, w);
    assert(data[n + 1] == code_type_byte(c.0));
}

/// Code sections whose instructions read back as themselves, written before a `%D`, are read
/// back as themselves from the `%` of the first one, and the reader stops at the `D`.
#[verifier::rlimit(80)]
pub proof fn code_sections_round_trip(
    cs: Seq<(CodeType, Seq<Instr>)>,
    w: IntSize,
    prefix: Seq<u8>,
    rest: Seq<u8>,
)
    requires
        code_sections_round_trip_ok(cs, w),
        rest.len() > 1,
        rest[0] == 0x25,
        rest[1] == 0x44,
    ensures
        decode_code_sections(prefix + code_sections_bytes(cs, w) + rest, prefix.len() as int, w) == (
            Ok::<Seq<(CodeType, Seq<Instr>)>, KSMParseError>(cs),
            (prefix.len() + code_sections_bytes(cs, w).len() + 1) as int,
        ),
    decreases cs.len(),
{
    let data = prefix + code_sections_bytes(cs, w) + rest;
    let n = prefix.len() as int;
    if cs.len() == 0 {
        assert(code_sections_bytes(cs, w) == Seq::<u8>::empty());
        assert(data == prefix + rest);
        assert(data[n + 1] == 0x44);
        assert(cs =~= Seq::<(CodeType, Seq<Instr>)>::empty());
    } else {
        let c = cs[0];
        let tail = cs.drop_first();
        let cb = code_section_bytes(c.0, c.1, w);
        assert(cs == seq![c] + tail);
        lemma_code_sections_prepend(c, tail, w);
        assert forall|i: int, k: int| 0 <= i < tail.len() && 0 <= k < tail[i].1.len() implies instr_round_trips(
            #[trigger] tail[i].1[k],
            w,
        ) by {
            assert(tail[i] == cs[i + 1]);
        }
        assert forall|k: int| 0 <= k < c.1.len() implies instr_round_trips(#[trigger] c.1[k], w) by {
            assert(cs[0].1[k] == c.1[k]);
        }
        code_sections_round_trip(tail, w, prefix + cb, rest);
        assert(data =~= (prefix + cb) + code_sections_bytes(tail, w) + rest);
        let rest2 = code_sections_bytes(tail, w) + rest;
        assert(data =~= prefix + cb + rest2);
        if tail.len() > 0 {
            lemma_code_sections_prepend(tail[0], tail.drop_first(), w);
            assert(tail == seq![tail[0]] + tail.drop_first());
            assert(rest2[0] == 0x25);
        } else {
            assert(code_sections_bytes(tail, w) == Seq::<u8>::empty());
            assert(rest2[0] == rest[0]);
        }
        lemma_code_sections_cons(
            c,
            tail,
            w,
            prefix,
            rest2,
            n + code_sections_bytes(cs, w).len() + 1,
        );
    }
}

/// A KSM file that is read back as itself after it has been written: its magic number is a
/// KSM file's, its values and instructions read back as themselves, the index width is the
/// one that reading the argument section gives (the fewest bytes that hold the section's
/// size), and its debug entries read back as themselves.
pub open spec fn ksm_round_trips(v: KSMFileView) -> bool {
    &&& v.magic == ksm_magic()
    &&& forall|i: int| 0 <= i < v.arguments.len() ==> value_round_trips(#[trigger] v.arguments[i])
    &&& v.index_bytes == parsed_index_bytes(v.index_bytes, v.arguments)
    &&& code_sections_round_trip_ok(v.code_sections, v.index_bytes)
    &&& forall|e: int|
        0 <= e < v.debug_entries.len() ==> entry_round_trips(
            #[trigger] v.debug_entries[e],
            v.range_size,
        )
}

/// The contents of a KSM file that are read back as themselves after they have been
/// written: its magic number is a KSM file's, its values and instructions read back as
/// themselves, and its debug entries read back as themselves.
pub open spec fn ksm_contents_round_trip(v: KSMFileView) -> bool {
    &&& v.magic == ksm_magic()
    &&& forall|i: int| 0 <= i < v.arguments.len() ==> value_round_trips(#[trigger] v.arguments[i])
    &&& code_sections_round_trip_ok(v.code_sections, v.index_bytes)
    &&& forall|e: int|
        0 <= e < v.debug_entries.len() ==> entry_round_trips(
            #[trigger] v.debug_entries[e],
            v.range_size,
        )
}

/// Writing a KSM file and reading it back gives the file back: the bytes it is made of before
/// compression are read back as its contents, and `KSMFile::parse` reads a stream that gzip
/// made of bytes as those bytes. This holds for every file whose contents are read back as
/// themselves (see `ksm_contents_round_trip`).
pub proof fn ksm_file_round_trip(f: &KSMFile)
    requires
        f.args_ok(),
        ksm_contents_round_trip(f@),
    ensures
        decode_ksm_body(ksm_body_bytes(f@)) == Ok::<KSMFileView, KSMParseError>(f@),
{
    assert(f@.index_bytes == parsed_index_bytes(f@.index_bytes, f@.arguments));
    ksm_body_round_trip(f@);
}

/// Reading the bytes a KSM file is made of (before compression) gives the file back.
#[verifier::rlimit(80)]
pub proof fn ksm_body_round_trip(v: KSMFileView)
    requires
        ksm_round_trips(v),
    ensures
        decode_ksm_body(ksm_body_bytes(v)) == Ok::<KSMFileView, KSMParseError>(v),
{
    let m = le_u32(v.magic);
    let a = arg_section_bytes(v.index_bytes, v.arguments);
    let c = code_sections_bytes(v.code_sections, v.index_bytes);
    let d = debug_section_bytes(v.range_size, v.debug_entries);
    let data = ksm_body_bytes(v);
    lemma_le_u32(v.magic);
    assert(data.subrange(0, 4) =~= m);
    lemma_u32_at(data, 0, v.magic);
    lemma_values_bytes_len(v.arguments);
    assert(a.len() == 3 + crate::value::values_size(v.arguments));
    let rest = c + d;
    if v.code_sections.len() > 0 {
        lemma_code_sections_prepend(v.code_sections[0], v.code_sections.drop_first(), v.index_bytes);
        assert(v.code_sections == seq![v.code_sections[0]] + v.code_sections.drop_first());
        assert(rest[0] == 0x25);
    } else {
        assert(c == Seq::<u8>::empty());
        assert(rest[0] == d[0]);
    }
    assert(data =~= m + a + rest);
    arg_section_round_trip(v.index_bytes, v.arguments, m, rest);
    assert(data =~= (m + a) + c + d);
    code_sections_round_trip(v.code_sections, v.index_bytes, m + a, d);
    assert(data =~= (m + a + c) + d);
    debug_section_round_trip(v.range_size, v.debug_entries, m + a + c);
}

} // verus!
