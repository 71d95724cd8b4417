//! A module describing a data section in a Kerbal Object file
use vstd::prelude::*;

use crate::buffer::BufferIterator;
use crate::ko::errors::DataSectionParseError;
use crate::ko::SectionIdx;
use crate::primitives::{FromBytes, ToBytes};
use crate::value::{
    decode_value, lemma_decoded_value_size, lemma_value_size, lemma_values_prepend,
    lemma_values_size_push, value_bytes, value_round_trip, value_round_trips, value_size,
    values_bytes, values_equal, values_size, KOSValue, KOSValueView,
};
use crate::errors::KOSValueParseError;

verus! {

/// A wrapper type that represents an index into a data section of a KO file.
///
/// This type implements From<usize> and usize implements From<DataIdx>, but this is provided
/// so that it takes 1 extra step to convert raw integers into DataIdx which could stop potential
/// logical bugs.
#[derive(Debug, Copy, Clone, PartialEq, Eq, Hash, Structural)]
pub struct DataIdx(u32);

impl View for DataIdx {
    type V = u32;

    closed spec fn view(&self) -> u32 {
        self.0
    }
}

/// The DataIdx that holds `i`.
pub closed spec fn data_idx(i: u32) -> DataIdx {
    DataIdx(i)
}

/// A DataIdx holds the number it was made from.
pub broadcast proof fn lemma_data_idx_view(i: u32)
    ensures
        #[trigger] data_idx(i)@ == i,
{
}

/// A DataIdx is determined by the number it holds.
pub broadcast proof fn lemma_data_idx_ext(x: DataIdx)
    ensures
        x == data_idx(#[trigger] x@),
{
}

/// What is known of every DataIdx.
pub broadcast group group_data_idx {
    lemma_data_idx_view,
    lemma_data_idx_ext,
}

impl From<usize> for DataIdx {
    fn from(i: usize) -> (r: Self) {
        Self(i as u32)
    }
}

impl vstd::std_specs::convert::FromSpecImpl<usize> for DataIdx {
    open spec fn obeys_from_spec() -> bool {
        true
    }

    open spec fn from_spec(i: usize) -> DataIdx {
        data_idx(i as u32)
    }
}

impl From<u8> for DataIdx {
    fn from(i: u8) -> (r: Self) {
        Self(i as u32)
    }
}

impl vstd::std_specs::convert::FromSpecImpl<u8> for DataIdx {
    open spec fn obeys_from_spec() -> bool {
        true
    }

    open spec fn from_spec(i: u8) -> DataIdx {
        data_idx(i as u32)
    }
}

impl From<u16> for DataIdx {
    fn from(i: u16) -> (r: Self) {
        Self(i as u32)
    }
}

impl vstd::std_specs::convert::FromSpecImpl<u16> for DataIdx {
    open spec fn obeys_from_spec() -> bool {
        true
    }

    open spec fn from_spec(i: u16) -> DataIdx {
        data_idx(i as u32)
    }
}

impl From<u32> for DataIdx {
    fn from(i: u32) -> (r: Self) {
        Self(i)
    }
}

impl vstd::std_specs::convert::FromSpecImpl<u32> for DataIdx {
    open spec fn obeys_from_spec() -> bool {
        true
    }

    open spec fn from_spec(i: u32) -> DataIdx {
        data_idx(i)
    }
}

impl From<DataIdx> for u32 {
    fn from(x: DataIdx) -> (r: Self) {
        x.0
    }
}

impl vstd::std_specs::convert::FromSpecImpl<DataIdx> for u32 {
    open spec fn obeys_from_spec() -> bool {
        true
    }

    open spec fn from_spec(x: DataIdx) -> u32 {
        x@
    }
}

impl From<DataIdx> for usize {
    fn from(x: DataIdx) -> (r: Self) {
        x.0 as usize
    }
}

impl vstd::std_specs::convert::FromSpecImpl<DataIdx> for usize {
    open spec fn obeys_from_spec() -> bool {
        true
    }

    open spec fn from_spec(x: DataIdx) -> usize {
        x@ as usize
    }
}

/// Reads values from `pos` while fewer than `remaining` bytes' worth have been read (counting
/// each value by its size): the values and the position after them, or the first error with
/// the position the reader stopped at.
pub open spec fn decode_data_values(data: Seq<u8>, pos: int, remaining: nat) -> (
    Result<Seq<KOSValueView>, DataSectionParseError>,
    int,
)
    decreases remaining,
{
    if remaining == 0 {
        (Ok(seq![]), pos)
    } else {
        match decode_value(data, pos) {
            (Err(e), p) => (Err(DataSectionParseError::KOSValueParseError(p as usize, e)), p),
            (Ok(v), p) => {
                let left: nat = if remaining > value_size(v) {
                    (remaining - value_size(v)) as nat
                } else {
                    0
                };
                match decode_data_values(data, p, left) {
                    (Ok(vs), q) => (Ok(seq![v] + vs), q),
                    (Err(e), q) => (Err(e), q),
                }
            },
        }
    }
}

/// A data section in a KerbalObject file.
///
/// This section is responsible
/// for storing all operands to all instructions contained within Function sections in this file,
/// but also for storing any data that is exported as global symbols in the symbol table.
///
/// Contrary to how Kerbal Machine Code argument sections work, data section indices are
/// 0-indexed, and indexes into the parsed vector of values, so the first index will be 0,
/// the second index will be 1, the third 2, etc.
#[derive(Debug)]
pub struct DataSection {
    data: Vec<KOSValue>,
    size: u32,
    section_index: SectionIdx,
}

impl DataSection {
    /// The values of this section, in order.
    pub closed spec fn values_view(&self) -> Seq<KOSValueView> {
        self.data@.map_values(|v: KOSValue| v@)
    }

    /// The size in bytes this section reports.
    pub closed spec fn size_view(&self) -> u32 {
        self.size
    }

    /// The index of this section's section header.
    pub closed spec fn index_view(&self) -> SectionIdx {
        self.section_index
    }

    /// Whether the size this section reports is the number of bytes its contents are
    /// written as. Every section built by `new`, `with_capacity`, `add` and `add_checked`
    /// keeps this.
    pub open spec fn size_matches(&self) -> bool {
        self.size_view() == values_size(self.values_view())
    }

    /// Creates a new data section, with the provided section index
    pub fn new(section_index: SectionIdx) -> (r: Self)
        ensures
            r.size_matches(),
            r.values_view() == Seq::<KOSValueView>::empty(),
            r.size_view() == 0,
            r.index_view() == section_index,
    {
        Self::with_capacity(0, section_index)
    }

    /// Creates a new data section with the provided section index, with
    /// internal data structures pre-allocated for the provided amount of items
    pub fn with_capacity(amount: usize, section_index: SectionIdx) -> (r: Self)
        ensures
            r.size_matches(),
            r.values_view() == Seq::<KOSValueView>::empty(),
            r.size_view() == 0,
            r.index_view() == section_index,
    {
        let r = Self { data: Vec::with_capacity(amount), size: 0, section_index };
        assert(r.values_view() =~= Seq::<KOSValueView>::empty());
        r
    }

    /// Locates a given value in this data section and returns the index
    /// if it does exist, or None if it doesn't. When the value is in the section more than
    /// once, the index of the last one is returned.
    pub fn position(&self, value: &KOSValue) -> (r: Option<DataIdx>)
        ensures
            r is None ==> forall|i: int|
                0 <= i < self.values_view().len() ==> self.values_view()[i] != value@,
            r matches Some(idx) ==> exists|i: int|
                0 <= i < self.values_view().len() && self.values_view()[i] == value@ && idx@
                    == i as u32 && forall|j: int|
                    i < j < self.values_view().len() ==> self.values_view()[j] != value@,
    {
        let mut i = self.data.len();
        while i > 0
            invariant
                i <= self.data@.len(),
                forall|j: int|
                    i <= j < self.values_view().len() ==> self.values_view()[j] != value@,
            decreases i,
        {
            i = i - 1;
            assert(self.values_view()[i as int] == self.data@[i as int]@);
            if values_equal(&self.data[i], value) {
                proof {
                    broadcast use group_data_idx;
                }
                return Some(DataIdx(i as u32));
            }
        }
        None
    }

    /// Add a new KOSValue to this data section, checking if it is a duplicate, and
    /// returning the index of the value. If it already exists, the index of that value is
    /// returned (of its last copy, when there are several), if it does not, then it is added,
    /// and the new index is returned.
    pub fn add_checked(&mut self, value: KOSValue) -> (r: DataIdx)
        requires
            old(self).values_view().contains(value@) || old(self).size_view() + value_size(value@)
                <= u32::MAX,
        ensures
            old(self).size_matches() ==> final(self).size_matches(),
            final(self).index_view() == old(self).index_view(),
            old(self).values_view().contains(value@) ==> {
                &&& final(self).values_view() == old(self).values_view()
                &&& final(self).size_view() == old(self).size_view()
                &&& exists|i: int|
                    0 <= i < old(self).values_view().len() && old(self).values_view()[i]
                        == value@ && r@ == i as u32 && forall|j: int|
                        i < j < old(self).values_view().len() ==> old(self).values_view()[j]
                            != value@
            },
            !old(self).values_view().contains(value@) ==> {
                &&& final(self).values_view() == old(self).values_view().push(value@)
                &&& final(self).size_view() == old(self).size_view() + value_size(value@)
                &&& r@ == old(self).values_view().len() as u32
            },
    {
        match self.position(&value) {
            Some(i) => i,
            None => self.add(value),
        }
    }

    /// Unconditionally adds a KOSValue to this data section, and returns the index into this
    /// data section that it resides at
    pub fn add(&mut self, value: KOSValue) -> (r: DataIdx)
        requires
            old(self).size_view() + value_size(value@) <= u32::MAX,
        ensures
            old(self).size_matches() ==> final(self).size_matches(),
            final(self).index_view() == old(self).index_view(),
            final(self).values_view() == old(self).values_view().push(value@),
            final(self).size_view() == old(self).size_view() + value_size(value@),
            r@ == old(self).values_view().len() as u32,
    {
        proof {
            crate::value::lemma_values_size_push(old(self).values_view(), value@);
        }
        proof {
            broadcast use group_data_idx;
        }
        let idx = self.data.len();
        self.size = self.size + value.size_bytes() as u32;
        self.data.push(value);
        assert(self.values_view() =~= old(self).values_view().push(value@));
        DataIdx(idx as u32)
    }

    /// Gets the KOSValue at the provided index into this data section if it exists,
    /// or None if it does not.
    pub fn get(&self, index: DataIdx) -> (r: Option<&KOSValue>)
        ensures
            index@ < self.values_view().len() ==> (r matches Some(v) && v@
                == self.values_view()[index@ as int]),
            index@ >= self.values_view().len() ==> r is None,
    {
        let i = index.0 as usize;
        if i < self.data.len() {
            Some(&self.data[i])
        } else {
            None
        }
    }

    /// Returns an iterator over all KOSValues in this data section
    pub fn data(&self) -> (r: std::slice::Iter<'_, KOSValue>)
        ensures
            vstd::std_specs::slice::into_iter_elts(r).map_values(|v: KOSValue| v@)
                == self.values_view(),
    {
        self.data.as_slice().iter()
    }

    /// The size of this data section in bytes
    pub fn size(&self) -> (r: u32)
        ensures
            r == self.size_view(),
    {
        self.size
    }

    /// The index of this section's section header
    pub fn section_index(&self) -> (r: SectionIdx)
        ensures
            r == self.index_view(),
    {
        self.section_index
    }

    /// Parses a data section from the provided byte buffer: values are read until their
    /// sizes add up to at least `size` bytes.
    pub fn parse(source: &mut BufferIterator, size: u32, section_index: SectionIdx) -> (r: Result<
        Self,
        DataSectionParseError,
    >)
        requires
            old(source).wf(),
        ensures
            final(source).wf(),
            final(source).data() == old(source).data(),
            ({
                let (res, q) = decode_data_values(old(source).data(), old(source).pos(), size as nat);
                &&& final(source).pos() == q
                &&& match res {
                    Ok(vs) => r matches Ok(d) && d.values_view() == vs && d.size_view() == size
                        && d.index_view() == section_index,
                    Err(e) => r == Err::<Self, DataSectionParseError>(e),
                }
            }),
    {
        let ghost d = source.data();
        let ghost start = source.pos();
        let mut data: Vec<KOSValue> = Vec::new();
        let mut bytes_read: u64 = 0;
        let mut failure: Option<DataSectionParseError> = None;
        assert(data@.map_values(|v: KOSValue| v@) =~= Seq::<KOSValueView>::empty());
        while bytes_read < size as u64
            invariant_except_break
                failure is None,
                bytes_read <= size,
                decode_data_values(d, start, size as nat) == match decode_data_values(
                    d,
                    source.pos(),
                    (size - bytes_read) as nat,
                ) {
                    (Ok(vs), q) => (Ok(data@.map_values(|v: KOSValue| v@) + vs), q),
                    (Err(e), q) => (Err::<Seq<KOSValueView>, DataSectionParseError>(e), q),
                },
            invariant
                source.wf(),
                source.data() == d,
            ensures
                match failure {
                    None => decode_data_values(d, start, size as nat) == (
                        Ok::<Seq<KOSValueView>, DataSectionParseError>(
                            data@.map_values(|v: KOSValue| v@),
                        ),
                        source.pos(),
                    ),
                    Some(e) => decode_data_values(d, start, size as nat) == (
                        Err::<Seq<KOSValueView>, DataSectionParseError>(e),
                        source.pos(),
                    ),
                },
            decreases size - bytes_read,
        {
            let ghost here = source.pos();
            proof {
                lemma_decoded_value_size(d, here);
            }
            match KOSValue::from_bytes(source) {
                Ok(value) => {
                    let ghost before = data@.map_values(|v: KOSValue| v@);
                    bytes_read = bytes_read + value.size_bytes() as u64;
                    data.push(value);
                    proof {
                        assert(data@.map_values(|v: KOSValue| v@) =~= before.push(value@));
                        let left: nat = if bytes_read < size {
                            (size - bytes_read) as nat
                        } else {
                            0
                        };
                        match decode_data_values(d, source.pos(), left) {
                            (Ok(vs), q) => {
                                assert(before + (seq![value@] + vs) == before.push(value@) + vs);
                            },
                            _ => {},
                        }
                    }
                    if bytes_read >= size as u64 {
                        assert(data@.map_values(|v: KOSValue| v@) + Seq::<KOSValueView>::empty()
                            == data@.map_values(|v: KOSValue| v@));
                        break ;
                    }
                },
                Err(e) => {
                    failure = Some(DataSectionParseError::KOSValueParseError(source.current_index(), e));
                    break ;
                },
            }
        }
        match failure {
            Some(e) => Err(e),
            None => Ok(Self { data, size, section_index }),
        }
    }

    /// Converts this data section to its binary representation and appends it to the provided buffer
    pub fn write(&self, buf: &mut Vec<u8>)
        ensures
            self.size_matches() ==> final(buf)@.len() == old(buf)@.len() + self.size_view(),
            final(buf)@ == old(buf)@ + values_bytes(self.values_view()),
    {
        proof {
            crate::value::lemma_values_bytes_len(self.values_view());
        }
        let ghost start = buf@;
        let ghost vs = self.values_view();
        let mut i: usize = 0;
        while i < self.data.len()
            invariant
                i <= self.data@.len(),
                vs == self.values_view(),
                buf@ == start + values_bytes(vs.take(i as int)),
            decreases self.data@.len() - i,
        {
            proof {
                assert(vs.take(i + 1) == vs.take(i as int).push(vs[i as int]));
                lemma_values_size_push(vs.take(i as int), vs[i as int]);
                assert(vs[i as int] == self.data@[i as int]@);
            }
            self.data[i].to_bytes(buf);
            i = i + 1;
        }
        assert(vs.take(vs.len() as int) == vs);
    }
}

/// Reading values where a value that reads back as itself was written: that value, then the
/// values read after it.
proof fn lemma_data_values_cons(
    v: KOSValueView,
    tail: Seq<KOSValueView>,
    prefix: Seq<u8>,
    rest: Seq<u8>,
    q: int,
)
    requires
        value_round_trips(v),
        decode_data_values(
            prefix + value_bytes(v) + rest,
            (prefix.len() + value_size(v)) as int,
            values_size(tail),
        ) == (Ok::<Seq<KOSValueView>, DataSectionParseError>(tail), q),
    ensures
        decode_data_values(
            prefix + value_bytes(v) + rest,
            prefix.len() as int,
            value_size(v) + values_size(tail),
        ) == (Ok::<Seq<KOSValueView>, DataSectionParseError>(seq![v] + tail), q),
{
    value_round_trip(v, prefix, rest);
}

/// Values that read back as themselves, written one after the other, are read back as
/// themselves when as many bytes as their size are read, whatever stands before and after.
pub proof fn data_values_round_trip(vs: Seq<KOSValueView>, prefix: Seq<u8>, rest: Seq<u8>)
    requires
        forall|i: int| 0 <= i < vs.len() ==> value_round_trips(#[trigger] vs[i]),
    ensures
        decode_data_values(prefix + values_bytes(vs) + rest, prefix.len() as int, values_size(vs))
            == (Ok::<Seq<KOSValueView>, DataSectionParseError>(vs), (prefix.len() + values_size(vs)) as int),
    decreases vs.len(),
{
    let data = prefix + values_bytes(vs) + rest;
    let n = prefix.len() as int;
    if vs.len() == 0 {
        assert(values_size(vs) == 0);
        assert(vs =~= Seq::<KOSValueView>::empty());
    } else {
        let v = vs[0];
        let tail = vs.drop_first();
        let vb = value_bytes(v);
        assert(vs == seq![v] + tail);
        lemma_values_prepend(v, tail);
        assert forall|i: int| 0 <= i < tail.len() implies value_round_trips(#[trigger] tail[i]) by {
            assert(tail[i] == vs[i + 1]);
        }
        assert(value_round_trips(vs[0]));
        lemma_value_size(v);
        data_values_round_trip(tail, prefix + vb, rest);
        assert(data =~= (prefix + vb) + values_bytes(tail) + rest);
        assert(data =~= prefix + vb + (values_bytes(tail) + rest));
        lemma_data_values_cons(v, tail, prefix, values_bytes(tail) + rest, n + values_size(vs));
    }
}

} // verus!
