//! A module describing a function section in a Kerbal Object file
use vstd::prelude::*;

use crate::buffer::BufferIterator;
use crate::ko::errors::FunctionSectionParseError;
use crate::ko::errors::InstrParseError;
use crate::ko::instructions::{
    decode_ko_instr, ko_instr_bytes, ko_instr_round_trip, ko_instr_round_trips, ko_instr_size,
    lemma_ko_instr_size, Instr,
};
use crate::ko::SectionIdx;

verus! {

/// A wrapper type that represents an index into a function section of a KO file.
///
/// This type implements From<usize> and usize implements From<InstrIdx>, but this is provided
/// so that it takes 1 extra step to convert raw integers into InstrIdx which could stop potential
/// logical bugs.
#[derive(Debug, Copy, Clone, PartialEq, Eq, Hash, Structural)]
pub struct InstrIdx(u32);

impl View for InstrIdx {
    type V = u32;

    closed spec fn view(&self) -> u32 {
        self.0
    }
}

/// The InstrIdx that holds `i`.
pub closed spec fn instr_idx(i: u32) -> InstrIdx {
    InstrIdx(i)
}

/// A InstrIdx holds the number it was made from.
pub broadcast proof fn lemma_instr_idx_view(i: u32)
    ensures
        #[trigger] instr_idx(i)@ == i,
{
}

/// A InstrIdx is determined by the number it holds.
pub broadcast proof fn lemma_instr_idx_ext(x: InstrIdx)
    ensures
        x == instr_idx(#[trigger] x@),
{
}

/// What is known of every InstrIdx.
pub broadcast group group_instr_idx {
    lemma_instr_idx_view,
    lemma_instr_idx_ext,
}

impl From<usize> for InstrIdx {
    fn from(i: usize) -> (r: Self) {
        Self(i as u32)
    }
}

impl vstd::std_specs::convert::FromSpecImpl<usize> for InstrIdx {
    open spec fn obeys_from_spec() -> bool {
        true
    }

    open spec fn from_spec(i: usize) -> InstrIdx {
        instr_idx(i as u32)
    }
}

impl From<u8> for InstrIdx {
    fn from(i: u8) -> (r: Self) {
        Self(i as u32)
    }
}

impl vstd::std_specs::convert::FromSpecImpl<u8> for InstrIdx {
    open spec fn obeys_from_spec() -> bool {
        true
    }

    open spec fn from_spec(i: u8) -> InstrIdx {
        instr_idx(i as u32)
    }
}

impl From<u16> for InstrIdx {
    fn from(i: u16) -> (r: Self) {
        Self(i as u32)
    }
}

impl vstd::std_specs::convert::FromSpecImpl<u16> for InstrIdx {
    open spec fn obeys_from_spec() -> bool {
        true
    }

    open spec fn from_spec(i: u16) -> InstrIdx {
        instr_idx(i as u32)
    }
}

impl From<u32> for InstrIdx {
    fn from(i: u32) -> (r: Self) {
        Self(i)
    }
}

impl vstd::std_specs::convert::FromSpecImpl<u32> for InstrIdx {
    open spec fn obeys_from_spec() -> bool {
        true
    }

    open spec fn from_spec(i: u32) -> InstrIdx {
        instr_idx(i)
    }
}

impl From<InstrIdx> for u32 {
    fn from(x: InstrIdx) -> (r: Self) {
        x.0
    }
}

impl vstd::std_specs::convert::FromSpecImpl<InstrIdx> for u32 {
    open spec fn obeys_from_spec() -> bool {
        true
    }

    open spec fn from_spec(x: InstrIdx) -> u32 {
        x@
    }
}

impl From<InstrIdx> for usize {
    fn from(x: InstrIdx) -> (r: Self) {
        x.0 as usize
    }
}

impl vstd::std_specs::convert::FromSpecImpl<InstrIdx> for usize {
    open spec fn obeys_from_spec() -> bool {
        true
    }

    open spec fn from_spec(x: InstrIdx) -> usize {
        x@ as usize
    }
}

/// The bytes a sequence of instructions is written as, one after the other.
pub open spec fn ko_instrs_bytes(s: Seq<Instr>) -> Seq<u8>
    decreases s.len(),
{
    if s.len() == 0 {
        seq![]
    } else {
        ko_instrs_bytes(s.drop_last()) + ko_instr_bytes(s.last())
    }
}

/// The total size in bytes of a sequence of instructions.
pub open spec fn ko_instrs_size(s: Seq<Instr>) -> nat
    decreases s.len(),
{
    if s.len() == 0 {
        0
    } else {
        ko_instrs_size(s.drop_last()) + ko_instr_size(s.last()) as nat
    }
}

/// Reads instructions from `pos` while fewer than `remaining` bytes' worth have been read
/// (counting each instruction by its size): the instructions and the position after them, or
/// the first error with the position the reader stopped at.
pub open spec fn decode_func_instrs(data: Seq<u8>, pos: int, remaining: nat) -> (
    Result<Seq<Instr>, FunctionSectionParseError>,
    int,
)
    decreases remaining,
{
    if remaining == 0 {
        (Ok(seq![]), pos)
    } else {
        match decode_ko_instr(data, pos) {
            (Err(e), p) => (Err(FunctionSectionParseError::InstrParseError(p as usize, e)), p),
            (Ok(i), p) => {
                let left: nat = if remaining > ko_instr_size(i) {
                    (remaining - ko_instr_size(i)) as nat
                } else {
                    0
                };
                match decode_func_instrs(data, p, left) {
                    (Ok(is), q) => (Ok(seq![i] + is), q),
                    (Err(e), q) => (Err(e), q),
                }
            },
        }
    }
}

/// A function section in a KerbalObject file.
///
/// This section stores a series
/// of instructions which define a function which can be included in the final binary produced by
/// the linker.
#[derive(Debug)]
pub struct FuncSection {
    instructions: Vec<Instr>,
    size: u32,
    section_index: SectionIdx,
}

impl FuncSection {
    /// The instructions of this section, in order.
    pub closed spec fn instrs_view(&self) -> Seq<Instr> {
        self.instructions@
    }

    /// The size in bytes this section reports.
    pub closed spec fn size_view(&self) -> u32 {
        self.size
    }

    /// The index of this section's section header.
    pub closed spec fn index_view(&self) -> SectionIdx {
        self.section_index
    }

    /// Whether the size this section reports is the number of bytes its contents are
    /// written as. Every section built by `new`, `with_capacity`, `add` and `add_checked`
    /// keeps this.
    pub open spec fn size_matches(&self) -> bool {
        self.size_view() == ko_instrs_size(self.instrs_view())
    }

    /// Creates a new function section, with the provided section index
    pub fn new(section_index: SectionIdx) -> (r: Self)
        ensures
            r.size_matches(),
            r.instrs_view() == Seq::<Instr>::empty(),
            r.size_view() == 0,
            r.index_view() == section_index,
    {
        Self::with_capacity(0, section_index)
    }

    /// Creates a new function section with the provided section index, with
    /// internal data structures pre-allocated for the provided amount of instructions
    pub fn with_capacity(amount: usize, section_index: SectionIdx) -> (r: Self)
        ensures
            r.size_matches(),
            r.instrs_view() == Seq::<Instr>::empty(),
            r.size_view() == 0,
            r.index_view() == section_index,
    {
        Self { instructions: Vec::with_capacity(amount), size: 0, section_index }
    }

    /// Adds an instruction to this function section, returning the index of the instruction
    /// into this function section.
    pub fn add(&mut self, instr: Instr) -> (r: InstrIdx)
        requires
            old(self).size_view() + ko_instr_size(instr) <= u32::MAX,
        ensures
            old(self).size_matches() ==> final(self).size_matches(),
            final(self).index_view() == old(self).index_view(),
            final(self).instrs_view() == old(self).instrs_view().push(instr),
            final(self).size_view() == old(self).size_view() + ko_instr_size(instr),
            r@ == old(self).instrs_view().len() as u32,
    {
        proof {
            assert(old(self).instrs_view().push(instr).drop_last() == old(self).instrs_view());
        }
        proof {
            broadcast use group_instr_idx;
        }
        let index = self.instructions.len();
        self.size = self.size + instr.size_bytes();
        self.instructions.push(instr);
        InstrIdx(index as u32)
    }

    /// The size of this function section in bytes
    pub fn size(&self) -> (r: u32)
        ensures
            r == self.size_view(),
    {
        self.size
    }

    /// Gets the instruction that resides at the provided index, or None if none exists
    pub fn get(&self, index: InstrIdx) -> (r: Option<&Instr>)
        ensures
            index@ < self.instrs_view().len() ==> r == Some(&self.instrs_view()[index@ as int]),
            index@ >= self.instrs_view().len() ==> r is None,
    {
        let i = index.0 as usize;
        if i < self.instructions.len() {
            Some(&self.instructions[i])
        } else {
            None
        }
    }

    /// Returns an iterator over all of the instructions in this section
    pub fn instructions(&self) -> (r: std::slice::Iter<'_, Instr>)
        ensures
            vstd::std_specs::slice::into_iter_elts(r) == self.instrs_view(),
    {
        self.instructions.as_slice().iter()
    }

    /// The index of this section's section header
    pub fn section_index(&self) -> (r: SectionIdx)
        ensures
            r == self.index_view(),
    {
        self.section_index
    }

    /// Parses a function section from the provided byte buffer: instructions are read until
    /// their sizes add up to at least `size` bytes.
    pub fn parse(source: &mut BufferIterator, size: u32, section_index: SectionIdx) -> (r: Result<
        Self,
        FunctionSectionParseError,
    >)
        requires
            old(source).wf(),
        ensures
            final(source).wf(),
            final(source).data() == old(source).data(),
            ({
                let (res, q) = decode_func_instrs(old(source).data(), old(source).pos(), size as nat);
                &&& final(source).pos() == q
                &&& match res {
                    Ok(is) => r matches Ok(f) && f.instrs_view() == is && f.size_view() == size
                        && f.index_view() == section_index,
                    Err(e) => r == Err::<Self, FunctionSectionParseError>(e),
                }
            }),
    {
        let ghost d = source.data();
        let ghost start = source.pos();
        let mut instructions: Vec<Instr> = Vec::new();
        let mut read_bytes: u64 = 0;
        let mut failure: Option<FunctionSectionParseError> = None;
        while read_bytes < size as u64
            invariant_except_break
                failure is None,
                read_bytes <= size,
                decode_func_instrs(d, start, size as nat) == match decode_func_instrs(
                    d,
                    source.pos(),
                    (size - read_bytes) as nat,
                ) {
                    (Ok(is), q) => (Ok(instructions@ + is), q),
                    (Err(e), q) => (Err::<Seq<Instr>, FunctionSectionParseError>(e), q),
                },
            invariant
                source.wf(),
                source.data() == d,
            ensures
                match failure {
                    None => decode_func_instrs(d, start, size as nat) == (
                        Ok::<Seq<Instr>, FunctionSectionParseError>(instructions@),
                        source.pos(),
                    ),
                    Some(e) => decode_func_instrs(d, start, size as nat) == (
                        Err::<Seq<Instr>, FunctionSectionParseError>(e),
                        source.pos(),
                    ),
                },
            decreases size - read_bytes,
        {
            match Instr::parse(source) {
                Ok(instr) => {
                    let ghost before = instructions@;
                    read_bytes = read_bytes + instr.size_bytes() as u64;
                    instructions.push(instr);
                    proof {
                        let left: nat = if read_bytes < size {
                            (size - read_bytes) as nat
                        } else {
                            0
                        };
                        match decode_func_instrs(d, source.pos(), left) {
                            (Ok(is), q) => {
                                assert(before + (seq![instr] + is) == before.push(instr) + is);
                            },
                            _ => {},
                        }
                    }
                    if read_bytes >= size as u64 {
                        assert(instructions@ + Seq::<Instr>::empty() == instructions@);
                        break ;
                    }
                },
                Err(e) => {
                    failure = Some(FunctionSectionParseError::InstrParseError(source.current_index(), e));
                    break ;
                },
            }
        }
        match failure {
            Some(e) => Err(e),
            None => Ok(Self { instructions, size, section_index }),
        }
    }

    /// Converts this function section to its binary representation and appends it to the provided buffer
    pub fn write(&self, buf: &mut Vec<u8>)
        ensures
            self.size_matches() ==> final(buf)@.len() == old(buf)@.len() + self.size_view(),
            final(buf)@ == old(buf)@ + ko_instrs_bytes(self.instrs_view()),
    {
        proof {
            lemma_ko_instrs_bytes_len(self.instrs_view());
        }
        let ghost start = buf@;
        let ghost is = self.instrs_view();
        let mut i: usize = 0;
        while i < self.instructions.len()
            invariant
                i <= self.instructions@.len(),
                is == self.instrs_view(),
                buf@ == start + ko_instrs_bytes(is.take(i as int)),
            decreases self.instructions@.len() - i,
        {
            proof {
                assert(is.take(i + 1).drop_last() == is.take(i as int));
            }
            self.instructions[i].write(buf);
            i = i + 1;
        }
        assert(is.take(is.len() as int) == is);
    }
}

/// The bytes and size of instructions that start with `i` are those of `i` followed by those
/// of the rest.
pub proof fn lemma_ko_instrs_prepend(i: Instr, s: Seq<Instr>)
    ensures
        ko_instrs_bytes(seq![i] + s) == ko_instr_bytes(i) + ko_instrs_bytes(s),
        ko_instrs_size(seq![i] + s) == ko_instr_size(i) + ko_instrs_size(s),
    decreases s.len(),
{
    let t = seq![i] + s;
    if s.len() == 0 {
        assert(t.drop_last() == Seq::<Instr>::empty());
        assert(t.last() == i);
        assert(ko_instrs_bytes(t.drop_last()) == Seq::<u8>::empty());
        assert(ko_instrs_size(t.drop_last()) == 0);
        assert(ko_instrs_bytes(s) == Seq::<u8>::empty());
        assert(ko_instrs_bytes(t) =~= ko_instr_bytes(i) + ko_instrs_bytes(s));
    } else {
        lemma_ko_instrs_prepend(i, s.drop_last());
        assert(t.drop_last() == seq![i] + s.drop_last());
        assert(t.last() == s.last());
        let x = ko_instr_bytes(i);
        let y = ko_instrs_bytes(s.drop_last());
        let z = ko_instr_bytes(s.last());
        assert(ko_instrs_bytes(t) == ko_instrs_bytes(t.drop_last()) + z);
        assert(ko_instrs_bytes(s) == y + z);
        assert(x + y + z =~= x + (y + z));
    }
}

/// The bytes of instructions number their size.
pub proof fn lemma_ko_instrs_bytes_len(s: Seq<Instr>)
    ensures
        ko_instrs_bytes(s).len() == ko_instrs_size(s),
    decreases s.len(),
{
    if s.len() > 0 {
        lemma_ko_instrs_bytes_len(s.drop_last());
        lemma_ko_instr_size(s.last());
    }
}

/// Reading instructions where an instruction that reads back as itself was written: that
/// instruction, then the instructions read after it.
proof fn lemma_func_instrs_cons(i: Instr, tail: Seq<Instr>, prefix: Seq<u8>, rest: Seq<u8>, q: int)
    requires
        ko_instr_round_trips(i),
        decode_func_instrs(
            prefix + ko_instr_bytes(i) + rest,
            prefix.len() + ko_instr_size(i),
            ko_instrs_size(tail),
        ) == (Ok::<Seq<Instr>, FunctionSectionParseError>(tail), q),
    ensures
        decode_func_instrs(
            prefix + ko_instr_bytes(i) + rest,
            prefix.len() as int,
            (ko_instr_size(i) + ko_instrs_size(tail)) as nat,
        ) == (Ok::<Seq<Instr>, FunctionSectionParseError>(seq![i] + tail), q),
{
    ko_instr_round_trip(i, prefix, rest);
}

/// Instructions that read back as themselves, written one after the other, are read back as
/// themselves when as many bytes as their size are read, whatever stands before and after.
pub proof fn func_instrs_round_trip(s: Seq<Instr>, prefix: Seq<u8>, rest: Seq<u8>)
    requires
        forall|k: int| 0 <= k < s.len() ==> ko_instr_round_trips(#[trigger] s[k]),
    ensures
        decode_func_instrs(prefix + ko_instrs_bytes(s) + rest, prefix.len() as int, ko_instrs_size(s))
            == (Ok::<Seq<Instr>, FunctionSectionParseError>(s), (prefix.len() + ko_instrs_size(s)) as int),
    decreases s.len(),
{
    let data = prefix + ko_instrs_bytes(s) + rest;
    let n = prefix.len() as int;
    if s.len() == 0 {
        assert(ko_instrs_size(s) == 0);
        assert(s =~= Seq::<Instr>::empty());
    } else {
        let i = s[0];
        let tail = s.drop_first();
        let ib = ko_instr_bytes(i);
        assert(s == seq![i] + tail);
        lemma_ko_instrs_prepend(i, tail);
        assert forall|k: int| 0 <= k < tail.len() implies ko_instr_round_trips(#[trigger] tail[k]) by {
            assert(tail[k] == s[k + 1]);
        }
        assert(ko_instr_round_trips(s[0]));
        lemma_ko_instr_size(i);
        func_instrs_round_trip(tail, prefix + ib, rest);
        assert(data =~= (prefix + ib) + ko_instrs_bytes(tail) + rest);
        assert(data =~= prefix + ib + (ko_instrs_bytes(tail) + rest));
        lemma_func_instrs_cons(i, tail, prefix, ko_instrs_bytes(tail) + rest, n + ko_instrs_size(s));
    }
}

} // verus!
