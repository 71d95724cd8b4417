//! A module describing a code section in a KSM file
use vstd::prelude::*;

use crate::buffer::{byte_at, BufferIterator};
use crate::ksm::errors::{CodeSectionParseError, InstrParseError};
use crate::ksm::instructions::{
    decode_instr, instr_bytes, instr_opcode, instr_round_trip, instr_round_trips, instr_size,
    lemma_instr_size, Instr,
};
use crate::opcode::{opcode_byte, Opcode};
use crate::ksm::IntSize;
use crate::primitives::{FromBytes, ToBytes};

verus! {

/// The type of code that a code section is
#[derive(Debug, PartialEq, Eq, Clone, Copy, Structural)]
pub enum CodeType {
    /// A user-defined function
    Function,
    /// Code that is run before the code in the Main section, usually setting up of
    /// delegates or triggers.
    Initialization,
    /// The code that gets run when the file gets loaded
    Main,
}

/// The byte that a code type is stored as: `F`, `I` or `M`.
pub open spec fn code_type_byte(c: CodeType) -> u8 {
    match c {
        CodeType::Function => 0x46,
        CodeType::Initialization => 0x49,
        CodeType::Main => 0x4d,
    }
}

/// The code type that the byte `b` stands for, if any.
pub open spec fn code_type_of_byte(b: u8) -> Option<CodeType> {
    if b == 0x46 {
        Some(CodeType::Function)
    } else if b == 0x49 {
        Some(CodeType::Initialization)
    } else if b == 0x4d {
        Some(CodeType::Main)
    } else {
        None
    }
}

/// A code section's type is stored as the first letter of its name, as the KSM format fixes
/// it: `F` for a function section, `I` for the initialization section, `M` for the main
/// section; exactly those three bytes stand for a type, each for its own.
pub proof fn code_type_bytes(b: u8)
    ensures
        code_type_byte(CodeType::Function) == 'F' as u8,
        code_type_byte(CodeType::Initialization) == 'I' as u8,
        code_type_byte(CodeType::Main) == 'M' as u8,
        code_type_of_byte(b) matches Some(c) ==> code_type_byte(c) == b,
        code_type_of_byte(b) is None ==> b != 'F' as u8 && b != 'I' as u8 && b != 'M' as u8,
{
}

impl TryFrom<u8> for CodeType {
    type Error = u8;

    fn try_from(byte: u8) -> (r: Result<Self, Self::Error>) {
        match byte {
            0x46 => Ok(CodeType::Function),
            0x49 => Ok(CodeType::Initialization),
            0x4d => Ok(CodeType::Main),
            _ => Err(byte),
        }
    }
}

impl vstd::std_specs::convert::TryFromSpecImpl<u8> for CodeType {
    open spec fn obeys_try_from_spec() -> bool {
        true
    }

    open spec fn try_from_spec(b: u8) -> Result<CodeType, u8> {
        match code_type_of_byte(b) {
            Some(c) => Ok(c),
            None => Err(b),
        }
    }
}

impl From<CodeType> for u8 {
    fn from(c: CodeType) -> (r: Self) {
        match c {
            CodeType::Function => 0x46,
            CodeType::Initialization => 0x49,
            CodeType::Main => 0x4d,
        }
    }
}

impl vstd::std_specs::convert::FromSpecImpl<CodeType> for u8 {
    open spec fn obeys_from_spec() -> bool {
        true
    }

    open spec fn from_spec(c: CodeType) -> u8 {
        code_type_byte(c)
    }
}

/// The total size of a sequence of instructions written with operands of `w` bytes.
pub open spec fn instrs_size(s: Seq<Instr>, w: IntSize) -> nat
    decreases s.len(),
{
    if s.len() == 0 {
        0
    } else {
        instrs_size(s.drop_last(), w) + instr_size(s.last(), w)
    }
}

/// The bytes of a sequence of instructions written with operands of `w` bytes.
pub open spec fn instrs_bytes(s: Seq<Instr>, w: IntSize) -> Seq<u8>
    decreases s.len(),
{
    if s.len() == 0 {
        seq![]
    } else {
        instrs_bytes(s.drop_last(), w) + instr_bytes(s.last(), w)
    }
}

/// The bytes a code section is written as: `%`, its type byte, then its instructions.
pub open spec fn code_section_bytes(t: CodeType, s: Seq<Instr>, w: IntSize) -> Seq<u8> {
    seq![0x25u8, code_type_byte(t)] + instrs_bytes(s, w)
}

/// A code section is written as `%`, the letter of its type, then its instructions.
pub proof fn code_section_starts_with_marker(t: CodeType, s: Seq<Instr>, w: IntSize)
    ensures
        code_section_bytes(t, s, w).take(2) == seq!['%' as u8, code_type_byte(t)],
{
    assert(code_section_bytes(t, s, w).take(2) =~= seq!['%' as u8, code_type_byte(t)]);
}

/// Reads instructions from `pos` until a `%` stands where the next one would begin.
pub open spec fn decode_instrs(data: Seq<u8>, pos: int, w: IntSize) -> (
    Result<Seq<Instr>, CodeSectionParseError>,
    int,
)
    decreases data.len() - pos,
{
    match byte_at(data, pos) {
        None => (Err(CodeSectionParseError::EOF), pos),
        Some(b) => if b == 0x25 {
            (Ok(seq![]), pos)
        } else {
            match decode_instr(data, pos, w) {
                (Err(e), p) => (Err(CodeSectionParseError::InstrParseError(e)), p),
                (Ok(i), p) => if p <= pos {
                    (Err(CodeSectionParseError::EOF), p)
                } else {
                    match decode_instrs(data, p, w) {
                        (Ok(is), q) => (Ok(seq![i] + is), q),
                        (Err(e), q) => (Err(e), q),
                    }
                },
            }
        },
    }
}

/// What `CodeSection::parse` reads at `pos`: a type byte, then instructions.
pub open spec fn decode_code_section(data: Seq<u8>, pos: int, w: IntSize) -> (
    Result<(CodeType, Seq<Instr>), CodeSectionParseError>,
    int,
) {
    match byte_at(data, pos) {
        None => (Err(CodeSectionParseError::MissingCodeSectionType), pos),
        Some(b) => match code_type_of_byte(b) {
            None => (Err(CodeSectionParseError::InvalidCodeSectionType(b)), pos + 1),
            Some(t) => match decode_instrs(data, pos + 1, w) {
                (Ok(is), q) => (Ok((t, is)), q),
                (Err(e), q) => (Err(e), q),
            },
        },
    }
}

/// A code section within a KSM file.
///
/// A KSM file can have as many
/// of these as required, as each one can represent a user-defined function, or other types of code.
///
/// There should be a minimum of three of them in each KSM file in order for it to be properly loaded
/// into kOS.
///
/// All of the function code sections should come first, followed by a required, but possibly
/// empty Initialization section, followed by a required, but possibly empty Main section.
#[derive(Debug, Clone)]
pub struct CodeSection {
    /// The type of code section that this is
    pub section_type: CodeType,
    instructions: Vec<Instr>,
}

impl CodeSection {
    /// The type of this section.
    pub closed spec fn code_type(&self) -> CodeType {
        self.section_type
    }

    /// The instructions of this section, in order.
    pub closed spec fn instructions_view(&self) -> Seq<Instr> {
        self.instructions@
    }

    /// Creates a new code section of the provided type
    pub fn new(section_type: CodeType) -> (r: Self)
        ensures
            r.code_type() == section_type,
            r.instructions_view() == Seq::<Instr>::empty(),
    {
        CodeSection { section_type, instructions: Vec::new() }
    }

    /// A builder-style method that takes in instructions that should be added to this
    /// CodeSection, in order
    pub fn with_instructions(self, instrs: Vec<Instr>) -> (r: Self)
        ensures
            r.code_type() == self.code_type(),
            r.instructions_view() == self.instructions_view() + instrs@,
    {
        let mut section = self;
        let mut instrs = instrs;
        section.instructions.append(&mut instrs);
        section
    }

    /// Returns an iterator over all of the instructions in this code section
    pub fn instructions(&self) -> (r: std::slice::Iter<'_, Instr>)
        ensures
            vstd::std_specs::slice::into_iter_elts(r) == self.instructions_view(),
    {
        self.instructions.as_slice().iter()
    }

    /// Adds a new instruction to this code section
    pub fn add(&mut self, instr: Instr)
        ensures
            final(self).code_type() == old(self).code_type(),
            final(self).instructions_view() == old(self).instructions_view().push(instr),
    {
        self.instructions.push(instr);
    }

    /// Returns how large this section will be if it is written with the provided
    /// number of argument index bytes
    pub fn size_bytes(&self, index_bytes: IntSize) -> (r: usize)
        requires
            2 + instrs_size(self.instructions_view(), index_bytes) <= usize::MAX,
        ensures
            r == 2 + instrs_size(self.instructions_view(), index_bytes),
    {
        let mut total: usize = 2;
        let mut i: usize = 0;
        while i < self.instructions.len()
            invariant
                i <= self.instructions@.len(),
                2 + instrs_size(self.instructions@, index_bytes) <= usize::MAX,
                total == 2 + instrs_size(self.instructions@.take(i as int), index_bytes),
            decreases self.instructions@.len() - i,
        {
            proof {
                let s = self.instructions@;
                assert(s.take(i + 1).drop_last() == s.take(i as int));
                lemma_instrs_size_prefix(s, i + 1, index_bytes);
            }
            total = total + self.instructions[i].size_bytes(index_bytes);
            i = i + 1;
        }
        assert(self.instructions@.take(self.instructions@.len() as int) == self.instructions@);
        total
    }

    /// Converts this code section into bytes and appends it to the provided buffer.
    ///
    /// This requires the number of bytes required to index into the argument section
    /// so that instruction operands can be written using the correct byte width.
    pub fn write(&self, buf: &mut Vec<u8>, index_bytes: IntSize)
        ensures
            final(buf)@ == old(buf)@ + code_section_bytes(
                self.code_type(),
                self.instructions_view(),
                index_bytes,
            ),
            final(buf)@.len() == old(buf)@.len() + 2 + instrs_size(self.instructions_view(), index_bytes),
    {
        proof {
            code_section_size(self.code_type(), self.instructions_view(), index_bytes);
        }
        let ghost start = buf@;
        buf.push(0x25);
        u8::from(self.section_type).to_bytes(buf);
        let ghost head = buf@;
        let mut i: usize = 0;
        while i < self.instructions.len()
            invariant
                i <= self.instructions@.len(),
                head == start + seq![0x25u8, code_type_byte(self.section_type)],
                buf@ == head + instrs_bytes(self.instructions@.take(i as int), index_bytes),
            decreases self.instructions@.len() - i,
        {
            proof {
                let s = self.instructions@;
                assert(s.take(i + 1).drop_last() == s.take(i as int));
            }
            self.instructions[i].write(buf, index_bytes);
            i = i + 1;
        }
        assert(self.instructions@.take(self.instructions@.len() as int) == self.instructions@);
    }

    /// Parses a code section from bytes: its type byte (the `%` before it has already been
    /// read), then instructions until a `%` stands where the next one would begin.
    ///
    /// This requires the number of bytes required to index into the argument section
    /// so that instruction operands can be read using the correct byte width.
    pub fn parse(source: &mut BufferIterator, index_bytes: IntSize) -> (r: Result<
        Self,
        CodeSectionParseError,
    >)
        requires
            old(source).wf(),
        ensures
            final(source).wf(),
            final(source).data() == old(source).data(),
            final(source).pos() == decode_code_section(
                old(source).data(),
                old(source).pos(),
                index_bytes,
            ).1,
            match decode_code_section(old(source).data(), old(source).pos(), index_bytes).0 {
                Ok((t, is)) => r matches Ok(sec) && sec.code_type() == t
                    && sec.instructions_view() == is,
                Err(e) => r matches Err(e2) && e2 == e,
            },
    {
        let ghost orig_pos = source.pos();
        let raw_section_type = match source.next() {
            Some(b) => b,
            None => {
                return Err(CodeSectionParseError::MissingCodeSectionType);
            },
        };
        let section_type = match CodeType::try_from(raw_section_type) {
            Ok(t) => t,
            Err(b) => {
                return Err(CodeSectionParseError::InvalidCodeSectionType(b));
            },
        };
        let ghost data = source.data();
        let ghost start = source.pos();
        let mut instructions: Vec<Instr> = Vec::new();
        let mut failure: Option<CodeSectionParseError> = None;
        assert(instructions@ + Seq::<Instr>::empty() == instructions@);
        loop
            invariant_except_break
                failure is None,
                decode_instrs(data, start, index_bytes) == match decode_instrs(
                    data,
                    source.pos(),
                    index_bytes,
                ) {
                    (Ok(is), q) => (Ok(instructions@ + is), q),
                    (Err(e), q) => (Err::<Seq<Instr>, CodeSectionParseError>(e), q),
                },
            invariant
                source.wf(),
                source.data() == data,
                start == orig_pos + 1,
                decode_code_section(data, orig_pos, index_bytes) == match decode_instrs(
                    data,
                    start,
                    index_bytes,
                ) {
                    (Ok(is), q) => (Ok((section_type, is)), q),
                    (Err(e), q) => (Err::<(CodeType, Seq<Instr>), CodeSectionParseError>(e), q),
                },
            ensures
                match failure {
                    Some(e) => decode_instrs(data, start, index_bytes) == (
                        Err::<Seq<Instr>, CodeSectionParseError>(e),
                        source.pos(),
                    ),
                    None => decode_instrs(data, start, index_bytes) == (
                        Ok::<Seq<Instr>, CodeSectionParseError>(instructions@),
                        source.pos(),
                    ),
                },
            decreases data.len() - source.pos(),
        {
            let ghost here = source.pos();
            match source.peek() {
                Some(next) => {
                    if next == 0x25 {
                        assert(instructions@ + Seq::<Instr>::empty() == instructions@);
                        break ;
                    }
                    match Instr::parse(source, index_bytes) {
                        Ok(instr) => {
                            proof {
                                crate::opcode::lemma_decode_opcode_advances(data, here);
                            }
                            let ghost before = instructions@;
                            instructions.push(instr);
                            proof {
                                match decode_instrs(data, source.pos(), index_bytes) {
                                    (Ok(is), q) => {
                                        assert(before + (seq![instr] + is) == before.push(instr)
                                            + is);
                                    },
                                    _ => {},
                                }
                            }
                        },
                        Err(e) => {
                            failure = Some(CodeSectionParseError::InstrParseError(e));
                            break ;
                        },
                    }
                },
                None => {
                    failure = Some(CodeSectionParseError::EOF);
                    break ;
                },
            }
        }
        match failure {
            Some(e) => Err(e),
            None => Ok(CodeSection { section_type, instructions }),
        }
    }
}

/// The size of a prefix of a sequence of instructions is at most the size of the whole.
pub proof fn lemma_instrs_size_prefix(s: Seq<Instr>, i: int, w: IntSize)
    requires
        0 <= i <= s.len(),
    ensures
        instrs_size(s.take(i), w) <= instrs_size(s, w),
    decreases s.len(),
{
    if i < s.len() {
        assert(s.drop_last().take(i) == s.take(i));
        lemma_instrs_size_prefix(s.drop_last(), i, w);
    } else {
        assert(s.take(i) == s);
    }
}

/// A successful read of instructions stops where a `%` stands.
pub proof fn lemma_instrs_end(data: Seq<u8>, pos: int, w: IntSize)
    ensures
        decode_instrs(data, pos, w).0 is Ok ==> byte_at(data, decode_instrs(data, pos, w).1)
            == Some(0x25u8),
    decreases data.len() - pos,
{
    if let Some(b) = byte_at(data, pos) {
        if b != 0x25 {
            if let (Ok(_), p) = decode_instr(data, pos, w) {
                if p > pos {
                    lemma_instrs_end(data, p, w);
                }
            }
        }
    }
}

/// A successful read of a code section stops where a `%` stands.
pub proof fn lemma_code_section_end(data: Seq<u8>, pos: int, w: IntSize)
    ensures
        decode_code_section(data, pos, w).0 is Ok ==> byte_at(
            data,
            decode_code_section(data, pos, w).1,
        ) == Some(0x25u8),
{
    lemma_instrs_end(data, pos + 1, w);
}

/// Reading instructions never moves the reader backwards nor past the end.
pub proof fn lemma_instrs_forward(data: Seq<u8>, pos: int, w: IntSize)
    requires
        0 <= pos <= data.len(),
    ensures
        pos <= decode_instrs(data, pos, w).1 <= data.len(),
    decreases data.len() - pos,
{
    if let Some(b) = byte_at(data, pos) {
        if b != 0x25 {
            if let (Ok(_), p) = decode_instr(data, pos, w) {
                if p > pos && p <= data.len() {
                    lemma_instrs_forward(data, p, w);
                }
            }
        }
    }
}

/// The bytes and size of instructions that start with `i` are those of `i` followed by those
/// of the rest.
pub proof fn lemma_instrs_prepend(i: Instr, s: Seq<Instr>, w: IntSize)
    ensures
        instrs_bytes(seq![i] + s, w) == instr_bytes(i, w) + instrs_bytes(s, w),
        instrs_size(seq![i] + s, w) == instr_size(i, w) + instrs_size(s, w),
    decreases s.len(),
{
    let t = seq![i] + s;
    if s.len() == 0 {
        assert(t.drop_last() == Seq::<Instr>::empty());
        assert(t.last() == i);
        assert(instrs_bytes(t.drop_last(), w) == Seq::<u8>::empty());
        assert(instrs_size(t.drop_last(), w) == 0);
        assert(instrs_bytes(s, w) == Seq::<u8>::empty());
        assert(instrs_bytes(t, w) =~= instr_bytes(i, w) + instrs_bytes(s, w));
    } else {
        lemma_instrs_prepend(i, s.drop_last(), w);
        assert(t.drop_last() == seq![i] + s.drop_last());
        assert(t.last() == s.last());
        assert(instrs_bytes(t, w) == instrs_bytes(t.drop_last(), w) + instr_bytes(t.last(), w));
        assert(instrs_bytes(s, w) == instrs_bytes(s.drop_last(), w) + instr_bytes(s.last(), w));
        assert(instr_bytes(i, w) + instrs_bytes(s.drop_last(), w) + instr_bytes(s.last(), w)
            =~= instr_bytes(i, w) + (instrs_bytes(s.drop_last(), w) + instr_bytes(s.last(), w)));
    }
}

/// The bytes of instructions number their size.
pub proof fn lemma_instrs_bytes_len(s: Seq<Instr>, w: IntSize)
    ensures
        instrs_bytes(s, w).len() == instrs_size(s, w),
    decreases s.len(),
{
    if s.len() > 0 {
        lemma_instrs_bytes_len(s.drop_last(), w);
        lemma_instr_size(s.last(), w);
    }
}

/// Reading instructions where an instruction that reads back as itself was written: that
/// instruction, then the instructions read after it.
proof fn lemma_instrs_cons(
    i: Instr,
    tail: Seq<Instr>,
    w: IntSize,
    prefix: Seq<u8>,
    rest: Seq<u8>,
    q: int,
)
    requires
        instr_round_trips(i, w),
        decode_instrs(
            prefix + instr_bytes(i, w) + rest,
            (prefix.len() + instr_size(i, w)) as int,
            w,
        ) == (Ok::<Seq<Instr>, CodeSectionParseError>(tail), q),
    ensures
        decode_instrs(prefix + instr_bytes(i, w) + rest, prefix.len() as int, w) == (
            Ok::<Seq<Instr>, CodeSectionParseError>(seq![i] + tail),
            q,
        ),
{
    let data = prefix + instr_bytes(i, w) + rest;
    let n = prefix.len() as int;
    instr_round_trip(i, w, prefix, rest);
    lemma_instr_size(i, w);
    assert(data[n] == opcode_byte(instr_opcode(i)));
}

/// Writing instructions that each read back as themselves, with a `%` after them, and reading
/// them back gives the same instructions, and the reader stops at the `%`.
#[verifier::rlimit(80)]
pub proof fn instrs_round_trip(s: Seq<Instr>, w: IntSize, prefix: Seq<u8>, rest: Seq<u8>)
    requires
        forall|k: int| 0 <= k < s.len() ==> instr_round_trips(#[trigger] s[k], w),
        rest.len() > 0,
        rest[0] == 0x25,
    ensures
        decode_instrs(prefix + instrs_bytes(s, w) + rest, prefix.len() as int, w) == (
            Ok::<Seq<Instr>, CodeSectionParseError>(s),
            (prefix.len() + instrs_size(s, w)) as int,
        ),
    decreases s.len(),
{
    let data = prefix + instrs_bytes(s, w) + rest;
    let n = prefix.len() as int;
    if s.len() == 0 {
        assert(instrs_bytes(s, w) == Seq::<u8>::empty());
        assert(data == prefix + rest);
        assert(data[n] == rest[0]);
        assert(s =~= Seq::<Instr>::empty());
        assert(instrs_size(s, w) == 0);
    } else {
        let i = s[0];
        let tail = s.drop_first();
        let ib = instr_bytes(i, w);
        assert(s == seq![i] + tail);
        lemma_instrs_prepend(i, tail, w);
        assert forall|k: int| 0 <= k < tail.len() implies instr_round_trips(#[trigger] tail[k], w) by {
            assert(tail[k] == s[k + 1]);
        }
        assert(instr_round_trips(s[0], w));
        lemma_instr_size(i, w);
        instrs_round_trip(tail, w, prefix + ib, rest);
        assert(data =~= (prefix + ib) + instrs_bytes(tail, w) + rest);
        assert(data =~= prefix + ib + (instrs_bytes(tail, w) + rest));
        lemma_instrs_cons(i, tail, w, prefix, instrs_bytes(tail, w) + rest, n + instrs_size(s, w));
    }
}

/// Writing a code section whose instructions each read back as themselves, with a `%` after
/// it, and reading it back from its type byte gives its type and its instructions, and the
/// reader stops at the `%`.
pub proof fn code_section_round_trip(
    t: CodeType,
    s: Seq<Instr>,
    w: IntSize,
    prefix: Seq<u8>,
    rest: Seq<u8>,
)
    requires
        forall|k: int| 0 <= k < s.len() ==> instr_round_trips(#[trigger] s[k], w),
        rest.len() > 0,
        rest[0] == 0x25,
    ensures
        decode_code_section(prefix + code_section_bytes(t, s, w) + rest, prefix.len() + 1int, w) == (
            Ok::<(CodeType, Seq<Instr>), CodeSectionParseError>((t, s)),
            (prefix.len() + 2 + instrs_size(s, w)) as int,
        ),
{
    let data = prefix + code_section_bytes(t, s, w) + rest;
    let n = prefix.len() as int;
    let head = seq![0x25u8, code_type_byte(t)];
    assert(data =~= (prefix + head) + instrs_bytes(s, w) + rest);
    assert(data[n + 1] == code_type_byte(t));
    instrs_round_trip(s, w, prefix + head, rest);
}

/// The size of a code section, as `CodeSection::size_bytes` counts it, is the number of
/// bytes `CodeSection::write` writes.
pub proof fn code_section_size(t: CodeType, s: Seq<Instr>, w: IntSize)
    ensures
        code_section_bytes(t, s, w).len() == 2 + instrs_size(s, w),
{
    lemma_instrs_bytes_len(s, w);
}

} // verus!
