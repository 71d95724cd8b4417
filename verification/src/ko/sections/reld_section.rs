//! A module describing a relocation data section in a Kerbal Object file
use vstd::prelude::*;

use crate::buffer::BufferIterator;
use crate::ko::errors::ReldSectionParseError;
use crate::ko::symbols::{
    decode_reld_entry, lemma_reld_entry_size, reld_entry_bytes, reld_entry_round_trip, ReldEntry,
    ReldEntryView,
};
use crate::ko::SectionIdx;

verus! {

/// A wrapper type that represents an index into a relocation data section of a KO file.
///
/// This type implements From<usize> and usize implements From<ReldIdx>, but this is provided
/// so that it takes 1 extra step to convert raw integers into ReldIdx which could stop potential
/// logical bugs.
#[derive(Debug, Copy, Clone, PartialEq, Eq, Hash, Structural)]
pub struct ReldIdx(usize);

impl View for ReldIdx {
    type V = usize;

    closed spec fn view(&self) -> usize {
        self.0
    }
}

/// The ReldIdx that holds `i`.
pub closed spec fn reld_idx(i: usize) -> ReldIdx {
    ReldIdx(i)
}

/// A ReldIdx holds the number it was made from.
pub broadcast proof fn lemma_reld_idx_view(i: usize)
    ensures
        #[trigger] reld_idx(i)@ == i,
{
}

/// A ReldIdx is determined by the number it holds.
pub broadcast proof fn lemma_reld_idx_ext(x: ReldIdx)
    ensures
        x == reld_idx(#[trigger] x@),
{
}

/// What is known of every ReldIdx.
pub broadcast group group_reld_idx {
    lemma_reld_idx_view,
    lemma_reld_idx_ext,
}

impl From<usize> for ReldIdx {
    fn from(i: usize) -> (r: Self) {
        Self(i)
    }
}

impl vstd::std_specs::convert::FromSpecImpl<usize> for ReldIdx {
    open spec fn obeys_from_spec() -> bool {
        true
    }

    open spec fn from_spec(i: usize) -> ReldIdx {
        reld_idx(i)
    }
}

impl From<u8> for ReldIdx {
    fn from(i: u8) -> (r: Self) {
        Self(i as usize)
    }
}

impl vstd::std_specs::convert::FromSpecImpl<u8> for ReldIdx {
    open spec fn obeys_from_spec() -> bool {
        true
    }

    open spec fn from_spec(i: u8) -> ReldIdx {
        reld_idx(i as usize)
    }
}

impl From<u16> for ReldIdx {
    fn from(i: u16) -> (r: Self) {
        Self(i as usize)
    }
}

impl vstd::std_specs::convert::FromSpecImpl<u16> for ReldIdx {
    open spec fn obeys_from_spec() -> bool {
        true
    }

    open spec fn from_spec(i: u16) -> ReldIdx {
        reld_idx(i as usize)
    }
}

impl From<u32> for ReldIdx {
    fn from(i: u32) -> (r: Self) {
        Self(i as usize)
    }
}

impl vstd::std_specs::convert::FromSpecImpl<u32> for ReldIdx {
    open spec fn obeys_from_spec() -> bool {
        true
    }

    open spec fn from_spec(i: u32) -> ReldIdx {
        reld_idx(i as usize)
    }
}

impl From<ReldIdx> for usize {
    fn from(x: ReldIdx) -> (r: Self) {
        x.0
    }
}

impl vstd::std_specs::convert::FromSpecImpl<ReldIdx> for usize {
    open spec fn obeys_from_spec() -> bool {
        true
    }

    open spec fn from_spec(x: ReldIdx) -> usize {
        x@
    }
}

/// The bytes a sequence of relocation entries is written as, one after the other.
pub open spec fn reld_entries_bytes(s: Seq<ReldEntryView>) -> Seq<u8>
    decreases s.len(),
{
    if s.len() == 0 {
        seq![]
    } else {
        reld_entries_bytes(s.drop_last()) + reld_entry_bytes(s.last())
    }
}

/// Reads relocation entries from `pos` while fewer than `remaining` bytes' worth have been
/// read (11 bytes each); `n` entries were read before. An error holds the number of the entry
/// that failed and the position the reader stopped at.
pub open spec fn decode_reld_entries(data: Seq<u8>, pos: int, remaining: nat, n: nat) -> (
    Result<Seq<ReldEntryView>, ReldSectionParseError>,
    int,
)
    decreases remaining,
{
    if remaining == 0 {
        (Ok(seq![]), pos)
    } else {
        match decode_reld_entry(data, pos) {
            (Err(e), p) => (
                Err(ReldSectionParseError::ReldEntryParseError(n as usize, p as usize, e)),
                p,
            ),
            (Ok(v), p) => {
                let left: nat = if remaining > 11 {
                    (remaining - 11) as nat
                } else {
                    0
                };
                match decode_reld_entries(data, p, left, n + 1) {
                    (Ok(vs), q) => (Ok(seq![v] + vs), q),
                    (Err(e), q) => (Err(e), q),
                }
            },
        }
    }
}

/// A relocation data section in a KerbalObject file.
///
/// This section stores a
/// list of entries which describe which symbols should replace instruction operands in the
/// final linked binary.
///
/// This does things like replace an external symbol with the correct value from a different
/// file.
#[derive(Debug)]
pub struct ReldSection {
    entries: Vec<ReldEntry>,
    size: u32,
    section_index: SectionIdx,
}

impl ReldSection {
    /// The entries of this section, in order.
    pub closed spec fn entries_view(&self) -> Seq<ReldEntryView> {
        self.entries@.map_values(|e: ReldEntry| e@)
    }

    /// The size in bytes this section reports.
    pub closed spec fn size_view(&self) -> u32 {
        self.size
    }

    /// The index of this section's section header.
    pub closed spec fn index_view(&self) -> SectionIdx {
        self.section_index
    }

    /// Whether the size this section reports is the number of bytes its contents are
    /// written as. Every section built by `new`, `with_capacity`, `add` and `add_checked`
    /// keeps this.
    pub open spec fn size_matches(&self) -> bool {
        self.size_view() == 11 * self.entries_view().len()
    }

    /// Creates a new relocation data section with the provided section index.
    pub fn new(section_index: SectionIdx) -> (r: Self)
        ensures
            r.size_matches(),
            r.entries_view() == Seq::<ReldEntryView>::empty(),
            r.size_view() == 0,
            r.index_view() == section_index,
    {
        Self::with_capacity(0, section_index)
    }

    /// Creates a new relocation data section with the provided section index, with
    /// internal data structures pre-allocated for the provided amount of items
    pub fn with_capacity(amount: usize, section_index: SectionIdx) -> (r: Self)
        ensures
            r.size_matches(),
            r.entries_view() == Seq::<ReldEntryView>::empty(),
            r.size_view() == 0,
            r.index_view() == section_index,
    {
        let r = Self { entries: Vec::with_capacity(amount), size: 0, section_index };
        assert(r.entries_view() =~= Seq::<ReldEntryView>::empty());
        r
    }

    /// Adds a new relocation data entry to this section.
    ///
    /// Returns the entry's index into this section
    pub fn add(&mut self, entry: ReldEntry) -> (r: ReldIdx)
        requires
            old(self).size_view() + 11 <= u32::MAX,
        ensures
            old(self).size_matches() ==> final(self).size_matches(),
            final(self).index_view() == old(self).index_view(),
            final(self).entries_view() == old(self).entries_view().push(entry@),
            final(self).size_view() == old(self).size_view() + 11,
            r@ == old(self).entries_view().len(),
    {
        proof {
            broadcast use group_reld_idx;
        }
        self.size = self.size + entry.size_bytes();
        self.entries.push(entry);
        assert(self.entries_view() =~= old(self).entries_view().push(entry@));
        ReldIdx(self.entries.len() - 1)
    }

    /// Gets a relocation data entry at the provided index into this section, or None
    /// if the index doesn't exist
    pub fn get(&self, index: ReldIdx) -> (r: Option<&ReldEntry>)
        ensures
            index@ < self.entries_view().len() ==> (r matches Some(e) && e@
                == self.entries_view()[index@ as int]),
            index@ >= self.entries_view().len() ==> r is None,
    {
        if index.0 < self.entries.len() {
            Some(&self.entries[index.0])
        } else {
            None
        }
    }

    /// Returns an iterator over all relocation data entries in this section
    pub fn entries(&self) -> (r: std::slice::Iter<'_, ReldEntry>)
        ensures
            vstd::std_specs::slice::into_iter_elts(r).map_values(|e: ReldEntry| e@)
                == self.entries_view(),
    {
        self.entries.as_slice().iter()
    }

    /// The size of this relocation data section in bytes
    pub fn size(&self) -> (r: u32)
        ensures
            r == self.size_view(),
    {
        self.size
    }

    /// The index of this section's section header
    pub fn section_index(&self) -> (r: SectionIdx)
        ensures
            r == self.index_view(),
    {
        self.section_index
    }

    /// Parses a relocation data section from the provided byte buffer: entries are read
    /// until their sizes add up to at least `size` bytes.
    pub fn parse(source: &mut BufferIterator, size: u32, section_index: SectionIdx) -> (r: Result<
        Self,
        ReldSectionParseError,
    >)
        requires
            old(source).wf(),
        ensures
            final(source).wf(),
            final(source).data() == old(source).data(),
            ({
                let (res, q) = decode_reld_entries(
                    old(source).data(),
                    old(source).pos(),
                    size as nat,
                    0,
                );
                &&& final(source).pos() == q
                &&& match res {
                    Ok(es) => r matches Ok(sec) && sec.entries_view() == es && sec.size_view()
                        == size && sec.index_view() == section_index,
                    Err(e) => r == Err::<Self, ReldSectionParseError>(e),
                }
            }),
    {
        let ghost d = source.data();
        let ghost start = source.pos();
        let mut entries: Vec<ReldEntry> = Vec::new();
        let mut bytes_read: u64 = 0;
        let mut failure: Option<ReldSectionParseError> = None;
        assert(entries@.map_values(|e: ReldEntry| e@) =~= Seq::<ReldEntryView>::empty());
        while bytes_read < size as u64
            invariant_except_break
                failure is None,
                bytes_read <= size,
                decode_reld_entries(d, start, size as nat, 0) == match decode_reld_entries(
                    d,
                    source.pos(),
                    (size - bytes_read) as nat,
                    entries@.len(),
                ) {
                    (Ok(es), q) => (Ok(entries@.map_values(|e: ReldEntry| e@) + es), q),
                    (Err(e), q) => (Err::<Seq<ReldEntryView>, ReldSectionParseError>(e), q),
                },
            invariant
                source.wf(),
                source.data() == d,
            ensures
                match failure {
                    None => decode_reld_entries(d, start, size as nat, 0) == (
                        Ok::<Seq<ReldEntryView>, ReldSectionParseError>(
                            entries@.map_values(|e: ReldEntry| e@),
                        ),
                        source.pos(),
                    ),
                    Some(e) => decode_reld_entries(d, start, size as nat, 0) == (
                        Err::<Seq<ReldEntryView>, ReldSectionParseError>(e),
                        source.pos(),
                    ),
                },
            decreases size - bytes_read,
        {
            let n = entries.len();
            match ReldEntry::parse(source) {
                Ok(entry) => {
                    let ghost before = entries@.map_values(|e: ReldEntry| e@);
                    bytes_read = bytes_read + entry.size_bytes() as u64;
                    entries.push(entry);
                    proof {
                        assert(entries@.map_values(|e: ReldEntry| e@) =~= before.push(entry@));
                        let left: nat = if bytes_read < size {
                            (size - bytes_read) as nat
                        } else {
                            0
                        };
                        match decode_reld_entries(d, source.pos(), left, entries@.len()) {
                            (Ok(es), q) => {
                                assert(before + (seq![entry@] + es) == before.push(entry@) + es);
                            },
                            _ => {},
                        }
                    }
                    if bytes_read >= size as u64 {
                        assert(entries@.map_values(|e: ReldEntry| e@) + Seq::<ReldEntryView>::empty()
                            == entries@.map_values(|e: ReldEntry| e@));
                        break ;
                    }
                },
                Err(e) => {
                    failure = Some(
                        ReldSectionParseError::ReldEntryParseError(n, source.current_index(), e),
                    );
                    break ;
                },
            }
        }
        match failure {
            Some(e) => Err(e),
            None => Ok(Self { entries, size, section_index }),
        }
    }

    /// Converts this relocation data section to its binary representation and appends it to the provided buffer
    pub fn write(&self, buf: &mut Vec<u8>)
        ensures
            self.size_matches() ==> final(buf)@.len() == old(buf)@.len() + self.size_view(),
            final(buf)@ == old(buf)@ + reld_entries_bytes(self.entries_view()),
    {
        proof {
            lemma_reld_entries_bytes_len(self.entries_view());
        }
        let ghost start = buf@;
        let ghost es = self.entries_view();
        let mut i: usize = 0;
        while i < self.entries.len()
            invariant
                i <= self.entries@.len(),
                es == self.entries_view(),
                buf@ == start + reld_entries_bytes(es.take(i as int)),
            decreases self.entries@.len() - i,
        {
            proof {
                assert(es.take(i + 1).drop_last() == es.take(i as int));
                assert(es[i as int] == self.entries@[i as int]@);
            }
            self.entries[i].write(buf);
            i = i + 1;
        }
        assert(es.take(es.len() as int) == es);
    }
}

/// The bytes of entries that start with `e` are those of `e` followed by those of the rest.
pub proof fn lemma_reld_entries_prepend(e: ReldEntryView, s: Seq<ReldEntryView>)
    ensures
        reld_entries_bytes(seq![e] + s) == reld_entry_bytes(e) + reld_entries_bytes(s),
    decreases s.len(),
{
    let t = seq![e] + s;
    if s.len() == 0 {
        assert(t.drop_last() == Seq::<ReldEntryView>::empty());
        assert(t.last() == e);
        assert(reld_entries_bytes(t.drop_last()) == Seq::<u8>::empty());
        assert(reld_entries_bytes(s) == Seq::<u8>::empty());
        assert(reld_entries_bytes(t) =~= reld_entry_bytes(e) + reld_entries_bytes(s));
    } else {
        lemma_reld_entries_prepend(e, s.drop_last());
        assert(t.drop_last() == seq![e] + s.drop_last());
        assert(t.last() == s.last());
        let x = reld_entry_bytes(e);
        let y = reld_entries_bytes(s.drop_last());
        let z = reld_entry_bytes(s.last());
        assert(reld_entries_bytes(t) == reld_entries_bytes(t.drop_last()) + z);
        assert(reld_entries_bytes(s) == y + z);
        assert(x + y + z =~= x + (y + z));
    }
}

/// The bytes of relocation entries number 11 for each entry.
pub proof fn lemma_reld_entries_bytes_len(s: Seq<ReldEntryView>)
    ensures
        reld_entries_bytes(s).len() == 11 * s.len(),
    decreases s.len(),
{
    if s.len() > 0 {
        lemma_reld_entries_bytes_len(s.drop_last());
        lemma_reld_entry_size(s.last());
    }
}

/// Reading entries where an entry was written: that entry, then the entries read after it.
proof fn lemma_reld_entries_cons(
    e: ReldEntryView,
    tail: Seq<ReldEntryView>,
    prefix: Seq<u8>,
    rest: Seq<u8>,
    k: nat,
    q: int,
)
    requires
        decode_reld_entries(
            prefix + reld_entry_bytes(e) + rest,
            prefix.len() + 11int,
            11 * tail.len(),
            k + 1,
        ) == (Ok::<Seq<ReldEntryView>, ReldSectionParseError>(tail), q),
    ensures
        decode_reld_entries(
            prefix + reld_entry_bytes(e) + rest,
            prefix.len() as int,
            11 * tail.len() + 11,
            k,
        ) == (Ok::<Seq<ReldEntryView>, ReldSectionParseError>(seq![e] + tail), q),
{
    reld_entry_round_trip(e, prefix, rest);
}

/// Relocation entries written one after the other are read back as themselves when 11 bytes
/// for each are read, whatever stands before and after.
#[verifier::rlimit(80)]
pub proof fn reld_entries_round_trip(s: Seq<ReldEntryView>, prefix: Seq<u8>, rest: Seq<u8>, k: nat)
    ensures
        decode_reld_entries(prefix + reld_entries_bytes(s) + rest, prefix.len() as int, 11 * s.len(), k)
            == (Ok::<Seq<ReldEntryView>, ReldSectionParseError>(s), (prefix.len() + 11 * s.len()) as int),
    decreases s.len(),
{
    let data = prefix + reld_entries_bytes(s) + rest;
    let n = prefix.len() as int;
    if s.len() == 0 {
        assert(s =~= Seq::<ReldEntryView>::empty());
    } else {
        let e = s[0];
        let tail = s.drop_first();
        let eb = reld_entry_bytes(e);
        assert(s == seq![e] + tail);
        lemma_reld_entries_prepend(e, tail);
        lemma_reld_entry_size(e);
        reld_entries_round_trip(tail, prefix + eb, rest, k + 1);
        assert(data =~= (prefix + eb) + reld_entries_bytes(tail) + rest);
        assert(data =~= prefix + eb + (reld_entries_bytes(tail) + rest));
        assert(11 * s.len() == 11 * tail.len() + 11);
        lemma_reld_entries_cons(e, tail, prefix, reld_entries_bytes(tail) + rest, k, n + 11 * s.len());
    }
}

} // verus!
