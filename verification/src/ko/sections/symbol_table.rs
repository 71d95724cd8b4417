//! A module describing a symbol table section in a Kerbal Object file. This section stores
//! a list of all symbols that this object file stores and references.
use vstd::prelude::*;

use crate::buffer::BufferIterator;
use crate::ko::errors::SymbolTableParseError;
use crate::ko::sections::StringIdx;
use crate::ko::symbols::{
    decode_symbol, lemma_decode_symbol_len, lemma_symbol_size, symbol_bytes, symbol_round_trip,
    KOSymbol,
};
use crate::ko::SectionIdx;

verus! {

/// A wrapper type that represents an index into a symbol table of a KO file.
///
/// This type implements From<usize> and usize implements From<SymbolIdx>, but this is provided
/// so that it takes 1 extra step to convert raw integers into SymbolIdx which could stop potential
/// logical bugs.
#[derive(Debug, Copy, Clone, PartialEq, Eq, Hash, Structural)]
pub struct SymbolIdx(u32);

impl View for SymbolIdx {
    type V = u32;

    closed spec fn view(&self) -> u32 {
        self.0
    }
}

/// The SymbolIdx that holds `i`.
pub closed spec fn symbol_idx(i: u32) -> SymbolIdx {
    SymbolIdx(i)
}

/// A SymbolIdx holds the number it was made from.
pub broadcast proof fn lemma_symbol_idx_view(i: u32)
    ensures
        #[trigger] symbol_idx(i)@ == i,
{
}

/// A SymbolIdx is determined by the number it holds.
pub broadcast proof fn lemma_symbol_idx_ext(x: SymbolIdx)
    ensures
        x == symbol_idx(#[trigger] x@),
{
}

/// What is known of every SymbolIdx.
pub broadcast group group_symbol_idx {
    lemma_symbol_idx_view,
    lemma_symbol_idx_ext,
}

impl From<usize> for SymbolIdx {
    fn from(i: usize) -> (r: Self) {
        Self(i as u32)
    }
}

impl vstd::std_specs::convert::FromSpecImpl<usize> for SymbolIdx {
    open spec fn obeys_from_spec() -> bool {
        true
    }

    open spec fn from_spec(i: usize) -> SymbolIdx {
        symbol_idx(i as u32)
    }
}

impl From<u8> for SymbolIdx {
    fn from(i: u8) -> (r: Self) {
        Self(i as u32)
    }
}

impl vstd::std_specs::convert::FromSpecImpl<u8> for SymbolIdx {
    open spec fn obeys_from_spec() -> bool {
        true
    }

    open spec fn from_spec(i: u8) -> SymbolIdx {
        symbol_idx(i as u32)
    }
}

impl From<u16> for SymbolIdx {
    fn from(i: u16) -> (r: Self) {
        Self(i as u32)
    }
}

impl vstd::std_specs::convert::FromSpecImpl<u16> for SymbolIdx {
    open spec fn obeys_from_spec() -> bool {
        true
    }

    open spec fn from_spec(i: u16) -> SymbolIdx {
        symbol_idx(i as u32)
    }
}

impl From<u32> for SymbolIdx {
    fn from(i: u32) -> (r: Self) {
        Self(i)
    }
}

impl vstd::std_specs::convert::FromSpecImpl<u32> for SymbolIdx {
    open spec fn obeys_from_spec() -> bool {
        true
    }

    open spec fn from_spec(i: u32) -> SymbolIdx {
        symbol_idx(i)
    }
}

impl From<SymbolIdx> for u32 {
    fn from(x: SymbolIdx) -> (r: Self) {
        x.0
    }
}

impl vstd::std_specs::convert::FromSpecImpl<SymbolIdx> for u32 {
    open spec fn obeys_from_spec() -> bool {
        true
    }

    open spec fn from_spec(x: SymbolIdx) -> u32 {
        x@
    }
}

impl From<SymbolIdx> for usize {
    fn from(x: SymbolIdx) -> (r: Self) {
        x.0 as usize
    }
}

impl vstd::std_specs::convert::FromSpecImpl<SymbolIdx> for usize {
    open spec fn obeys_from_spec() -> bool {
        true
    }

    open spec fn from_spec(x: SymbolIdx) -> usize {
        x@ as usize
    }
}

/// The bytes a sequence of symbols is written as, one after the other.
pub open spec fn symbols_bytes(s: Seq<KOSymbol>) -> Seq<u8>
    decreases s.len(),
{
    if s.len() == 0 {
        seq![]
    } else {
        symbols_bytes(s.drop_last()) + symbol_bytes(s.last())
    }
}

/// Reads symbols from `pos` while fewer than `remaining` bytes' worth have been read (14
/// bytes each); `n` symbols were read before. An error holds the number of the symbol that
/// failed and the position the reader stopped at.
pub open spec fn decode_symbols(data: Seq<u8>, pos: int, remaining: nat, n: nat) -> (
    Result<Seq<KOSymbol>, SymbolTableParseError>,
    int,
)
    decreases remaining,
{
    if remaining == 0 {
        (Ok(seq![]), pos)
    } else {
        match decode_symbol(data, pos) {
            (Err(e), p) => (
                Err(SymbolTableParseError::SymbolParseError(n as usize, p as usize, e)),
                p,
            ),
            (Ok(s), p) => {
                let left: nat = if remaining > 14 {
                    (remaining - 14) as nat
                } else {
                    0
                };
                match decode_symbols(data, p, left, n + 1) {
                    (Ok(ss), q) => (Ok(seq![s] + ss), q),
                    (Err(e), q) => (Err(e), q),
                }
            },
        }
    }
}

/// Whether the symbol at `i` is the last one of `s` with the name `name`.
pub open spec fn last_with_name(s: Seq<KOSymbol>, name: StringIdx, i: int) -> bool {
    &&& 0 <= i < s.len()
    &&& s[i].name_idx == name
    &&& forall|j: int| i < j < s.len() ==> s[j].name_idx != name
}

/// Whether some symbol of `s` has the name `name`.
pub open spec fn has_name(s: Seq<KOSymbol>, name: StringIdx) -> bool {
    exists|i: int| 0 <= i < s.len() && s[i].name_idx == name
}

/// A symbol table section in a KerbalObject file.
///
/// This section stores a list of all symbols that this object file stores and references.
#[derive(Debug)]
pub struct SymbolTable {
    symbols: Vec<KOSymbol>,
    size: u32,
    section_index: SectionIdx,
}

impl SymbolTable {
    /// The symbols of this table, in order.
    pub closed spec fn symbols_view(&self) -> Seq<KOSymbol> {
        self.symbols@
    }

    /// The size in bytes this table reports.
    pub closed spec fn size_view(&self) -> u32 {
        self.size
    }

    /// The index of this section's section header.
    pub closed spec fn index_view(&self) -> SectionIdx {
        self.section_index
    }

    /// Whether the size this section reports is the number of bytes its contents are
    /// written as. Every section built by `new`, `with_capacity`, `add` and `add_checked`
    /// keeps this.
    pub open spec fn size_matches(&self) -> bool {
        self.size_view() == 14 * self.symbols_view().len()
    }

    /// Creates a new symbol table section with the provided section index
    pub fn new(section_index: SectionIdx) -> (r: Self)
        ensures
            r.size_matches(),
            r.symbols_view() == Seq::<KOSymbol>::empty(),
            r.size_view() == 0,
            r.index_view() == section_index,
    {
        Self::with_capacity(0, section_index)
    }

    /// Creates a new symbol table section with the provided section index, with
    /// internal data structures pre-allocated for the provided amount of symbols
    pub fn with_capacity(amount: usize, section_index: SectionIdx) -> (r: Self)
        ensures
            r.size_matches(),
            r.symbols_view() == Seq::<KOSymbol>::empty(),
            r.size_view() == 0,
            r.index_view() == section_index,
    {
        Self { symbols: Vec::with_capacity(amount), size: 0, section_index }
    }

    /// Gets the symbol at the provided index into this symbol table, or None if
    /// it doesn't exist.
    pub fn get(&self, index: SymbolIdx) -> (r: Option<&KOSymbol>)
        ensures
            index@ < self.symbols_view().len() ==> r == Some(&self.symbols_view()[index@ as int]),
            index@ >= self.symbols_view().len() ==> r is None,
    {
        let i = index.0 as usize;
        if i < self.symbols.len() {
            Some(&self.symbols[i])
        } else {
            None
        }
    }

    /// The position of the last symbol with the provided name index, if any.
    fn last_position_by_name(&self, name_idx: StringIdx) -> (r: Option<usize>)
        ensures
            r is None ==> !has_name(self.symbols_view(), name_idx),
            r matches Some(i) ==> last_with_name(self.symbols_view(), name_idx, i as int),
    {
        let mut i = self.symbols.len();
        while i > 0
            invariant
                i <= self.symbols@.len(),
                forall|j: int| i <= j < self.symbols@.len() ==> self.symbols@[j].name_idx != name_idx,
            decreases i,
        {
            i = i - 1;
            if self.symbols[i].name_idx == name_idx {
                return Some(i);
            }
        }
        None
    }

    /// Returns the KOSymbol by the provided name index (from the .symstrtab), or None
    /// if it doesn't exist. When several symbols have that name, the last one added is
    /// returned.
    pub fn find_by_name(&self, name_idx: StringIdx) -> (r: Option<&KOSymbol>)
        ensures
            r is None ==> !has_name(self.symbols_view(), name_idx),
            r matches Some(s) ==> exists|i: int|
                last_with_name(self.symbols_view(), name_idx, i) && *s == self.symbols_view()[i],
    {
        match self.last_position_by_name(name_idx) {
            Some(i) => Some(&self.symbols[i]),
            None => None,
        }
    }

    /// Returns the position/index in this symbol table of the symbol of the provided
    /// name index (from the .symstrtab), or None if it doesn't exist. When several symbols
    /// have that name, the position of the last one added is returned.
    pub fn position_by_name(&self, name_idx: StringIdx) -> (r: Option<SymbolIdx>)
        ensures
            r is None ==> !has_name(self.symbols_view(), name_idx),
            r matches Some(idx) ==> exists|i: int|
                last_with_name(self.symbols_view(), name_idx, i) && idx@ == i as u32,
    {
        match self.last_position_by_name(name_idx) {
            Some(i) => Some(SymbolIdx(i as u32)),
            None => None,
        }
    }

    /// Returns the position/index in this symbol table of the provided
    /// symbol, or None if it doesn't exist. The first equal symbol is found.
    pub fn find(&self, symbol: &KOSymbol) -> (r: Option<SymbolIdx>)
        ensures
            r is None ==> !self.symbols_view().contains(*symbol),
            r matches Some(idx) ==> exists|i: int|
                0 <= i < self.symbols_view().len() && self.symbols_view()[i] == *symbol && idx@
                    == i as u32 && forall|j: int| 0 <= j < i ==> self.symbols_view()[j] != *symbol,
    {
        let mut i: usize = 0;
        while i < self.symbols.len()
            invariant
                i <= self.symbols@.len(),
                forall|j: int| 0 <= j < i ==> self.symbols@[j] != *symbol,
            decreases self.symbols@.len() - i,
        {
            if self.symbols[i] == *symbol {
                assert(self.symbols_view()[i as int] == *symbol);
                assert(SymbolIdx(i as u32)@ == i as u32);
                return Some(SymbolIdx(i as u32));
            }
            i = i + 1;
        }
        None
    }

    /// Adds a new symbol to this symbol table, returning the index of the symbol
    /// into this section. Doesn't do anything like checking if a symbol with that name already
    /// exists in the table
    pub fn add(&mut self, symbol: KOSymbol) -> (r: SymbolIdx)
        requires
            old(self).size_view() + 14 <= u32::MAX,
        ensures
            old(self).size_matches() ==> final(self).size_matches(),
            final(self).index_view() == old(self).index_view(),
            final(self).symbols_view() == old(self).symbols_view().push(symbol),
            final(self).size_view() == old(self).size_view() + 14,
            r@ == old(self).symbols_view().len() as u32,
    {
        self.size = self.size + KOSymbol::size_bytes();
        self.symbols.push(symbol);
        SymbolIdx((self.symbols.len() - 1) as u32)
    }

    /// Adds a new symbol to this symbol table, returning the index of the symbol
    /// into this section. Checks if a symbol with the same name is already in the table,
    /// and in that case just returns the index of that symbol (the last one added with that
    /// name)
    pub fn add_checked(&mut self, symbol: KOSymbol) -> (r: SymbolIdx)
        requires
            has_name(old(self).symbols_view(), symbol.name_idx) || old(self).size_view() + 14
                <= u32::MAX,
        ensures
            old(self).size_matches() ==> final(self).size_matches(),
            final(self).index_view() == old(self).index_view(),
            has_name(old(self).symbols_view(), symbol.name_idx) ==> {
                &&& final(self).symbols_view() == old(self).symbols_view()
                &&& final(self).size_view() == old(self).size_view()
                &&& exists|i: int|
                    last_with_name(old(self).symbols_view(), symbol.name_idx, i) && r@ == i as u32
            },
            !has_name(old(self).symbols_view(), symbol.name_idx) ==> {
                &&& final(self).symbols_view() == old(self).symbols_view().push(symbol)
                &&& final(self).size_view() == old(self).size_view() + 14
                &&& r@ == old(self).symbols_view().len() as u32
            },
    {
        match self.last_position_by_name(symbol.name_idx) {
            Some(i) => SymbolIdx(i as u32),
            None => self.add(symbol),
        }
    }

    /// The size of this symbol table section in bytes
    pub fn size(&self) -> (r: u32)
        ensures
            r == self.size_view(),
    {
        self.size
    }

    /// Returns an iterator over all symbols in this symbol table
    pub fn symbols(&self) -> (r: std::slice::Iter<'_, KOSymbol>)
        ensures
            vstd::std_specs::slice::into_iter_elts(r) == self.symbols_view(),
    {
        self.symbols.as_slice().iter()
    }

    /// The index of this section's section header
    pub fn section_index(&self) -> (r: SectionIdx)
        ensures
            r == self.index_view(),
    {
        self.section_index
    }

    /// Parses a symbol table from the provided byte buffer: symbols are read while fewer
    /// than `size` bytes' worth have been read. The table's size is then 14 bytes for each
    /// symbol read, which must fit in a `u32`: so either `size` leaves room for the last
    /// symbol, or the buffer holds at most `u32::MAX` bytes.
    pub fn parse(source: &mut BufferIterator, size: u32, section_index: SectionIdx) -> (r: Result<
        Self,
        SymbolTableParseError,
    >)
        requires
            old(source).wf(),
            size + 13 <= u32::MAX || old(source).data().len() <= u32::MAX,
        ensures
            final(source).wf(),
            final(source).data() == old(source).data(),
            ({
                let (res, q) = decode_symbols(old(source).data(), old(source).pos(), size as nat, 0);
                &&& final(source).pos() == q
                &&& match res {
                    Ok(ss) => r matches Ok(t) && t.symbols_view() == ss && t.size_view() == 14
                        * ss.len() && t.index_view() == section_index,
                    Err(e) => r == Err::<Self, SymbolTableParseError>(e),
                }
            }),
    {
        let ghost d = source.data();
        let ghost start = source.pos();
        let mut sym_tab = SymbolTable::with_capacity((size / 14) as usize, section_index);
        let mut failure: Option<SymbolTableParseError> = None;
        loop
            invariant_except_break
                failure is None,
                sym_tab.size_view() <= size,
                decode_symbols(d, start, size as nat, 0) == match decode_symbols(
                    d,
                    source.pos(),
                    (size - sym_tab.size_view()) as nat,
                    sym_tab.symbols_view().len(),
                ) {
                    (Ok(ss), q) => (Ok(sym_tab.symbols_view() + ss), q),
                    (Err(e), q) => (Err::<Seq<KOSymbol>, SymbolTableParseError>(e), q),
                },
            invariant
                source.wf(),
                source.data() == d,
                size + 13 <= u32::MAX || d.len() <= u32::MAX,
                start >= 0,
                sym_tab.size_view() == 14 * sym_tab.symbols_view().len(),
                sym_tab.size_view() <= size + 13,
                sym_tab.size_view() <= source.pos() - start,
                sym_tab.index_view() == section_index,
            ensures
                match failure {
                    None => decode_symbols(d, start, size as nat, 0) == (
                        Ok::<Seq<KOSymbol>, SymbolTableParseError>(sym_tab.symbols_view()),
                        source.pos(),
                    ),
                    Some(e) => decode_symbols(d, start, size as nat, 0) == (
                        Err::<Seq<KOSymbol>, SymbolTableParseError>(e),
                        source.pos(),
                    ),
                },
            decreases size - sym_tab.size_view(),
        {
            if sym_tab.size >= size {
                assert(sym_tab.symbols_view() + Seq::<KOSymbol>::empty() == sym_tab.symbols_view());
                break ;
            }
            let n = sym_tab.symbols.len();
            proof {
                lemma_decode_symbol_len(d, source.pos());
            }
            match KOSymbol::parse(source) {
                Ok(symbol) => {
                    let ghost before = sym_tab.symbols_view();
                    sym_tab.add(symbol);
                    proof {
                        let left: nat = if sym_tab.size_view() < size {
                            (size - sym_tab.size_view()) as nat
                        } else {
                            0
                        };
                        match decode_symbols(d, source.pos(), left, sym_tab.symbols_view().len()) {
                            (Ok(ss), q) => {
                                assert(before + (seq![symbol] + ss) == before.push(symbol) + ss);
                            },
                            _ => {},
                        }
                    }
                    if sym_tab.size >= size {
                        assert(sym_tab.symbols_view() + Seq::<KOSymbol>::empty()
                            == sym_tab.symbols_view());
                        break ;
                    }
                },
                Err(e) => {
                    failure = Some(
                        SymbolTableParseError::SymbolParseError(n, source.current_index(), e),
                    );
                    break ;
                },
            }
        }
        match failure {
            Some(e) => Err(e),
            None => Ok(sym_tab),
        }
    }

    /// Converts this symbol table to its binary representation and appends it to the provided buffer
    pub fn write(&self, buf: &mut Vec<u8>)
        ensures
            self.size_matches() ==> final(buf)@.len() == old(buf)@.len() + self.size_view(),
            final(buf)@ == old(buf)@ + symbols_bytes(self.symbols_view()),
    {
        proof {
            lemma_symbols_bytes_len(self.symbols_view());
        }
        let ghost start = buf@;
        let ghost ss = self.symbols_view();
        let mut i: usize = 0;
        while i < self.symbols.len()
            invariant
                i <= self.symbols@.len(),
                ss == self.symbols_view(),
                buf@ == start + symbols_bytes(ss.take(i as int)),
            decreases self.symbols@.len() - i,
        {
            proof {
                assert(ss.take(i + 1).drop_last() == ss.take(i as int));
            }
            self.symbols[i].write(buf);
            i = i + 1;
        }
        assert(ss.take(ss.len() as int) == ss);
    }
}

/// The bytes of symbols that start with `x` are those of `x` followed by those of the rest.
pub proof fn lemma_symbols_prepend(x: KOSymbol, s: Seq<KOSymbol>)
    ensures
        symbols_bytes(seq![x] + s) == symbol_bytes(x) + symbols_bytes(s),
    decreases s.len(),
{
    let t = seq![x] + s;
    if s.len() == 0 {
        assert(t.drop_last() == Seq::<KOSymbol>::empty());
        assert(t.last() == x);
        assert(symbols_bytes(t.drop_last()) == Seq::<u8>::empty());
        assert(symbols_bytes(s) == Seq::<u8>::empty());
        assert(symbols_bytes(t) =~= symbol_bytes(x) + symbols_bytes(s));
    } else {
        lemma_symbols_prepend(x, s.drop_last());
        assert(t.drop_last() == seq![x] + s.drop_last());
        assert(t.last() == s.last());
        let a = symbol_bytes(x);
        let b = symbols_bytes(s.drop_last());
        let c = symbol_bytes(s.last());
        assert(symbols_bytes(t) == symbols_bytes(t.drop_last()) + c);
        assert(symbols_bytes(s) == b + c);
        assert(a + b + c =~= a + (b + c));
    }
}

/// The bytes of symbols number 14 for each symbol.
pub proof fn lemma_symbols_bytes_len(s: Seq<KOSymbol>)
    ensures
        symbols_bytes(s).len() == 14 * s.len(),
    decreases s.len(),
{
    if s.len() > 0 {
        lemma_symbols_bytes_len(s.drop_last());
        lemma_symbol_size(s.last());
    }
}

/// Reading symbols where a symbol was written: that symbol, then the symbols read after it.
proof fn lemma_symbols_cons(
    x: KOSymbol,
    tail: Seq<KOSymbol>,
    prefix: Seq<u8>,
    rest: Seq<u8>,
    k: nat,
    q: int,
)
    requires
        decode_symbols(prefix + symbol_bytes(x) + rest, prefix.len() + 14int, 14 * tail.len(), k + 1)
            == (Ok::<Seq<KOSymbol>, SymbolTableParseError>(tail), q),
    ensures
        decode_symbols(prefix + symbol_bytes(x) + rest, prefix.len() as int, 14 * tail.len() + 14, k)
            == (Ok::<Seq<KOSymbol>, SymbolTableParseError>(seq![x] + tail), q),
{
    symbol_round_trip(x, prefix, rest);
}

/// Symbols written one after the other are read back as themselves when 14 bytes for each
/// are read, whatever stands before and after.
#[verifier::rlimit(80)]
pub proof fn symbols_round_trip(s: Seq<KOSymbol>, prefix: Seq<u8>, rest: Seq<u8>, k: nat)
    ensures
        decode_symbols(prefix + symbols_bytes(s) + rest, prefix.len() as int, 14 * s.len(), k) == (
            Ok::<Seq<KOSymbol>, SymbolTableParseError>(s),
            (prefix.len() + 14 * s.len()) as int,
        ),
    decreases s.len(),
{
    let data = prefix + symbols_bytes(s) + rest;
    let n = prefix.len() as int;
    if s.len() == 0 {
        assert(s =~= Seq::<KOSymbol>::empty());
    } else {
        let x = s[0];
        let tail = s.drop_first();
        let xb = symbol_bytes(x);
        assert(s == seq![x] + tail);
        lemma_symbols_prepend(x, tail);
        lemma_symbol_size(x);
        symbols_round_trip(tail, prefix + xb, rest, k + 1);
        assert(data =~= (prefix + xb) + symbols_bytes(tail) + rest);
        assert(data =~= prefix + xb + (symbols_bytes(tail) + rest));
        assert(14 * s.len() == 14 * tail.len() + 14);
        lemma_symbols_cons(x, tail, prefix, symbols_bytes(tail) + rest, k, n + 14 * s.len());
    }
}

} // verus!
