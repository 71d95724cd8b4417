//! A module describing a debug section in a KSM file
use vstd::prelude::*;

use crate::buffer::{byte_at, BufferIterator};
use crate::ksm::errors::{DebugEntryParseError, DebugSectionParseError};
use crate::ksm::{
    decode_var_int, fewest_bytes, fewest_bytes_to_hold, int_size_max, int_size_of, read_var_int,
    var_int_bytes, var_int_round_trip, width, write_var_int, IntSize,
};
use crate::primitives::{le_u16, lemma_take_middle, lemma_u16_at, FromBytes, ToBytes};

verus! {

/// Represents a range of bytes in the KSM file, from the beginning of the code sections, that store
/// the opcodes for the DebugEntry which will contain this range.
#[derive(Debug, Clone, Copy, PartialEq, Eq, Structural)]
pub struct DebugRange {
    /// The start of this range in bytes
    pub start: usize,
    /// The end of this range in bytes
    pub end: usize,
}

/// The bytes a debug range is written as: its start, then its end, each in `w` bytes.
pub open spec fn range_bytes(r: DebugRange, w: IntSize) -> Seq<u8> {
    var_int_bytes(r.start as u32, w) + var_int_bytes(r.end as u32, w)
}

/// What `DebugRange::parse` gives at `pos`.
pub open spec fn decode_range(data: Seq<u8>, pos: int, w: IntSize) -> (Result<DebugRange, ()>, int) {
    match decode_var_int(data, pos, w) {
        (Err(_), p) => (Err(()), p),
        (Ok(s), p) => match decode_var_int(data, p, w) {
            (Err(_), q) => (Err(()), q),
            (Ok(e), q) => (Ok(DebugRange { start: s as usize, end: e as usize }), q),
        },
    }
}

impl DebugRange {
    /// Creates a new debug range with the specified start and end
    pub fn new(start: usize, end: usize) -> (r: Self)
        ensures
            r == (DebugRange { start, end }),
    {
        DebugRange { start, end }
    }

    /// Returns the size of a debug range in bytes, using the provided range size
    pub fn size_bytes(&self, range_size: IntSize) -> (r: usize)
        ensures
            r == 2 * width(range_size),
    {
        2 * (u8::from(range_size) as usize)
    }

    /// Converts this range to bytes and writes it to the provided buffer.
    ///
    /// This requires that the range size in bytes is specified, which describes how
    /// many bytes are required to describe a range start or end.
    ///
    /// The range size is based off of the length of the file, and is the debug
    /// section counterpart to NumArgIndexBytes
    pub fn write(&self, buf: &mut Vec<u8>, range_size: IntSize)
        ensures
            final(buf)@ == old(buf)@ + range_bytes(*self, range_size),
    {
        write_var_int(self.start as u32, buf, range_size);
        write_var_int(self.end as u32, buf, range_size);
    }

    /// Parses a debug range, using the provided range size
    ///
    /// The only reason that this can fail is if we run out of bytes
    pub fn parse(source: &mut BufferIterator, range_size: IntSize) -> (r: Result<Self, ()>)
        requires
            old(source).wf(),
        ensures
            final(source).wf(),
            final(source).data() == old(source).data(),
            (r, final(source).pos()) == decode_range(old(source).data(), old(source).pos(), range_size),
    {
        let start = match read_var_int(source, range_size) {
            Ok(v) => v as usize,
            Err(_) => {
                return Err(());
            },
        };
        let end = match read_var_int(source, range_size) {
            Ok(v) => v as usize,
            Err(_) => {
                return Err(());
            },
        };
        Ok(Self { start, end })
    }
}

/// The bytes of a sequence of ranges, one after the other.
pub open spec fn ranges_bytes(rs: Seq<DebugRange>, w: IntSize) -> Seq<u8>
    decreases rs.len(),
{
    if rs.len() == 0 {
        seq![]
    } else {
        ranges_bytes(rs.drop_last(), w) + range_bytes(rs.last(), w)
    }
}

/// The size in bytes of a sequence of ranges written with `w` bytes per number.
pub open spec fn ranges_size(rs: Seq<DebugRange>, w: IntSize) -> nat
    decreases rs.len(),
{
    if rs.len() == 0 {
        0
    } else {
        ranges_size(rs.drop_last(), w) + (2 * width(w)) as nat
    }
}

/// The bytes a debug entry is written as: its line number as a little-endian 16-bit
/// integer, its number of ranges as one byte, then its ranges.
pub open spec fn entry_bytes(line: isize, rs: Seq<DebugRange>, w: IntSize) -> Seq<u8> {
    le_u16((line as i16) as u16) + seq![rs.len() as u8] + ranges_bytes(rs, w)
}

/// Reads the ranges with numbers `i` up to `n` of a debug entry.
pub open spec fn decode_ranges(data: Seq<u8>, pos: int, w: IntSize, i: nat, n: nat) -> (
    Result<Seq<DebugRange>, DebugEntryParseError>,
    int,
)
    decreases n - i,
{
    if i >= n {
        (Ok(seq![]), pos)
    } else {
        match decode_range(data, pos, w) {
            (Err(_), p) => (Err(DebugEntryParseError::MissingRange(i as usize)), p),
            (Ok(r), p) => match decode_ranges(data, p, w, i + 1, n) {
                (Ok(rs), q) => (Ok(seq![r] + rs), q),
                (Err(e), q) => (Err(e), q),
            },
        }
    }
}

/// What `DebugEntry::parse` gives at `pos`: the line number and the ranges.
pub open spec fn decode_entry(data: Seq<u8>, pos: int, w: IntSize) -> (
    Result<(isize, Seq<DebugRange>), DebugEntryParseError>,
    int,
) {
    match <i16 as FromBytes>::decode(data, pos) {
        (Err(_), p) => (Err(DebugEntryParseError::MissingLineNumber), p),
        (Ok(line), p) => match byte_at(data, p) {
            None => (Err(DebugEntryParseError::MissingNumRanges), p),
            Some(n) => match decode_ranges(data, p + 1, w, 0, n as nat) {
                (Ok(rs), q) => (Ok((line as isize, rs)), q),
                (Err(e), q) => (Err(e), q),
            },
        },
    }
}

/// An entry into the debug section
#[derive(Debug, Clone, PartialEq, Eq)]
pub struct DebugEntry {
    /// The line number this entry refers to in the source code
    pub line_number: isize,
    ranges: Vec<DebugRange>,
}

impl DebugEntry {
    /// The line number of this entry.
    pub closed spec fn line(&self) -> isize {
        self.line_number
    }

    /// The ranges of this entry, in order.
    pub closed spec fn ranges_view(&self) -> Seq<DebugRange> {
        self.ranges@
    }

    /// Creates a new debug entry with the provided line number
    pub fn new(line_number: isize) -> (r: Self)
        ensures
            r.line() == line_number,
            r.ranges_view() == Seq::<DebugRange>::empty(),
    {
        Self { line_number, ranges: Vec::new() }
    }

    /// A builder-style method for creating a new DebugEntry while adding a debug range
    pub fn with_range(self, range: DebugRange) -> (r: Self)
        ensures
            r.line() == self.line(),
            r.ranges_view() == self.ranges_view().push(range),
    {
        let mut entry = self;
        entry.ranges.push(range);
        entry
    }

    /// A builder-style method for creating a new DebugEntry which takes the DebugRanges
    /// that should be added to it, in order
    pub fn with_ranges(self, ranges: Vec<DebugRange>) -> (r: Self)
        ensures
            r.line() == self.line(),
            r.ranges_view() == self.ranges_view() + ranges@,
    {
        let mut entry = self;
        let mut ranges = ranges;
        entry.ranges.append(&mut ranges);
        entry
    }

    /// Adds a debug range to this entry
    pub fn add(&mut self, range: DebugRange)
        ensures
            final(self).line() == old(self).line(),
            final(self).ranges_view() == old(self).ranges_view().push(range),
    {
        self.ranges.push(range);
    }

    /// The number of DebugRanges that this entry has
    pub fn number_ranges(&self) -> (r: usize)
        ensures
            r == self.ranges_view().len(),
    {
        self.ranges.len()
    }

    /// Returns an iterator over each debug range in this entry
    pub fn ranges(&self) -> (r: std::slice::Iter<'_, DebugRange>)
        ensures
            vstd::std_specs::slice::into_iter_elts(r) == self.ranges_view(),
    {
        self.ranges.as_slice().iter()
    }

    /// Returns the debug range from the index into this entry's list of debug ranges.
    ///
    /// Returns None if there is no DebugRange at the provided index.
    pub fn get_range(&self, index: usize) -> (r: Option<&DebugRange>)
        ensures
            index < self.ranges_view().len() ==> r == Some(&self.ranges_view()[index as int]),
            index >= self.ranges_view().len() ==> r is None,
    {
        if index < self.ranges.len() {
            Some(&self.ranges[index])
        } else {
            None
        }
    }

    /// Returns the size of this debug entry in bytes using the provided range size
    pub fn size_bytes(&self, range_size: IntSize) -> (r: usize)
        requires
            3 + ranges_size(self.ranges_view(), range_size) <= usize::MAX,
        ensures
            r == 3 + ranges_size(self.ranges_view(), range_size),
    {
        // Two for the line number, one for the number of ranges
        let mut total: usize = 3;
        let mut i: usize = 0;
        while i < self.ranges.len()
            invariant
                i <= self.ranges@.len(),
                3 + ranges_size(self.ranges@, range_size) <= usize::MAX,
                total == 3 + ranges_size(self.ranges@.take(i as int), range_size),
            decreases self.ranges@.len() - i,
        {
            proof {
                let s = self.ranges@;
                assert(s.take(i + 1).drop_last() == s.take(i as int));
                lemma_ranges_size_prefix(s, i + 1, range_size);
            }
            total = total + self.ranges[i].size_bytes(range_size);
            i = i + 1;
        }
        assert(self.ranges@.take(self.ranges@.len() as int) == self.ranges@);
        total
    }

    /// Converts this debug entry into bytes and writes it into the provided buffer.
    ///
    /// Uses the range size specified in the debug section header. The line number is
    /// written as a 16-bit integer and the number of ranges as one byte, each truncated.
    pub fn write(&self, buf: &mut Vec<u8>, range_size: IntSize)
        ensures
            final(buf)@ == old(buf)@ + entry_bytes(self.line(), self.ranges_view(), range_size),
    {
        let ghost start = buf@;
        (self.line_number as i16).to_bytes(buf);
        (self.number_ranges() as u8).to_bytes(buf);
        let ghost head = buf@;
        let mut i: usize = 0;
        while i < self.ranges.len()
            invariant
                i <= self.ranges@.len(),
                head == start + le_u16((self.line_number as i16) as u16) + seq![
                    self.ranges@.len() as u8,
                ],
                buf@ == head + ranges_bytes(self.ranges@.take(i as int), range_size),
            decreases self.ranges@.len() - i,
        {
            proof {
                let s = self.ranges@;
                assert(s.take(i + 1).drop_last() == s.take(i as int));
            }
            self.ranges[i].write(buf, range_size);
            i = i + 1;
        }
        assert(self.ranges@.take(self.ranges@.len() as int) == self.ranges@);
    }

    /// Parses this debug entry from bytes
    ///
    /// Uses the range size specified in the debug section header
    ///
    /// The only reason that this can fail is if we run out of bytes
    pub fn parse(source: &mut BufferIterator, range_size: IntSize) -> (r: Result<
        Self,
        DebugEntryParseError,
    >)
        requires
            old(source).wf(),
        ensures
            final(source).wf(),
            final(source).data() == old(source).data(),
            final(source).pos() == decode_entry(old(source).data(), old(source).pos(), range_size).1,
            match decode_entry(old(source).data(), old(source).pos(), range_size).0 {
                Ok((line, rs)) => r matches Ok(e) && e.line() == line && e.ranges_view() == rs,
                Err(e) => r matches Err(e2) && e2 == e,
            },
    {
        let ghost orig_pos = source.pos();
        let line_number = match i16::from_bytes(source) {
            Ok(l) => l as isize,
            Err(_) => {
                return Err(DebugEntryParseError::MissingLineNumber);
            },
        };
        let number_ranges = match source.next() {
            Some(n) => n as usize,
            None => {
                return Err(DebugEntryParseError::MissingNumRanges);
            },
        };
        let ghost data = source.data();
        let ghost start = source.pos();
        let mut ranges: Vec<DebugRange> = Vec::new();
        let mut failure: Option<DebugEntryParseError> = None;
        let mut i: usize = 0;
        assert(ranges@ + Seq::<DebugRange>::empty() == ranges@);
        while i < number_ranges
            invariant_except_break
                failure is None,
                decode_ranges(data, start, range_size, 0, number_ranges as nat) == match decode_ranges(
                    data,
                    source.pos(),
                    range_size,
                    i as nat,
                    number_ranges as nat,
                ) {
                    (Ok(rs), q) => (Ok(ranges@ + rs), q),
                    (Err(e), q) => (Err::<Seq<DebugRange>, DebugEntryParseError>(e), q),
                },
            invariant
                source.wf(),
                source.data() == data,
                i <= number_ranges,
                number_ranges <= 255,
                decode_entry(data, orig_pos, range_size) == match decode_ranges(
                    data,
                    start,
                    range_size,
                    0,
                    number_ranges as nat,
                ) {
                    (Ok(rs), q) => (Ok((line_number, rs)), q),
                    (Err(e), q) => (Err::<(isize, Seq<DebugRange>), DebugEntryParseError>(e), q),
                },
            ensures
                match failure {
                    Some(e) => decode_ranges(data, start, range_size, 0, number_ranges as nat) == (
                        Err::<Seq<DebugRange>, DebugEntryParseError>(e),
                        source.pos(),
                    ),
                    None => decode_ranges(data, start, range_size, 0, number_ranges as nat) == (
                        Ok::<Seq<DebugRange>, DebugEntryParseError>(ranges@),
                        source.pos(),
                    ),
                },
            decreases number_ranges - i,
        {
            match DebugRange::parse(source, range_size) {
                Ok(range) => {
                    let ghost before = ranges@;
                    ranges.push(range);
                    proof {
                        match decode_ranges(
                            data,
                            source.pos(),
                            range_size,
                            (i + 1) as nat,
                            number_ranges as nat,
                        ) {
                            (Ok(rs), q) => {
                                assert(before + (seq![range] + rs) == before.push(range) + rs);
                            },
                            _ => {},
                        }
                    }
                    i = i + 1;
                },
                Err(_) => {
                    failure = Some(DebugEntryParseError::MissingRange(i));
                    break ;
                },
            }
        }
        match failure {
            Some(e) => Err(e),
            None => Ok(Self { line_number, ranges }),
        }
    }
}

/// The size of a prefix of a sequence of ranges is at most the size of the whole.
pub proof fn lemma_ranges_size_prefix(s: Seq<DebugRange>, i: int, w: IntSize)
    requires
        0 <= i <= s.len(),
    ensures
        ranges_size(s.take(i), w) <= ranges_size(s, w),
    decreases s.len(),
{
    if i < s.len() {
        assert(s.drop_last().take(i) == s.take(i));
        lemma_ranges_size_prefix(s.drop_last(), i, w);
    } else {
        assert(s.take(i) == s);
    }
}

/// Reading ranges never moves the reader backwards.
pub proof fn lemma_decode_ranges_forward(data: Seq<u8>, pos: int, w: IntSize, i: nat, n: nat)
    requires
        0 <= pos <= data.len(),
    ensures
        pos <= decode_ranges(data, pos, w, i, n).1 <= data.len(),
    decreases n - i,
{
    if i < n {
        if let (Ok(_), p) = decode_range(data, pos, w) {
            lemma_decode_ranges_forward(data, p, w, i + 1, n);
        }
    }
}

/// Reading a debug entry moves the reader forward by at least its three header bytes.
pub proof fn lemma_decode_entry_advances(data: Seq<u8>, pos: int, w: IntSize)
    requires
        0 <= pos <= data.len(),
    ensures
        decode_entry(data, pos, w).1 <= data.len(),
        decode_entry(data, pos, w).0 is Ok ==> decode_entry(data, pos, w).1 >= pos + 3,
{
    if pos + 3 <= data.len() {
        lemma_decode_ranges_forward(data, pos + 3, w, 0, data[pos + 2] as nat);
    }
}

/// A debug entry taken as its line number and its ranges.
pub open spec fn entry_view(e: DebugEntry) -> (isize, Seq<DebugRange>) {
    (e.line(), e.ranges_view())
}

/// The range size that a section of range size `w` takes after entries with the ranges
/// `rs` have been added: each range widens it to the fewest bytes that hold the larger of the
/// range's start and end (taken as 32-bit numbers), when that is more than it is.
pub open spec fn grown_range_size(w: IntSize, rs: Seq<DebugRange>) -> IntSize
    decreases rs.len(),
{
    if rs.len() == 0 {
        w
    } else {
        let before = grown_range_size(w, rs.drop_last());
        let r = rs.last();
        let size = fewest_bytes((if r.start >= r.end { r.start } else { r.end }) as u32 as int);
        if width(size) > width(before) {
            size
        } else {
            before
        }
    }
}

/// The size in bytes of a sequence of debug entries written with ranges of `w` bytes.
pub open spec fn entries_size(es: Seq<(isize, Seq<DebugRange>)>, w: IntSize) -> nat
    decreases es.len(),
{
    if es.len() == 0 {
        0
    } else {
        entries_size(es.drop_last(), w) + 3 + ranges_size(es.last().1, w)
    }
}

/// The bytes of a sequence of debug entries, one after the other.
pub open spec fn entries_bytes(es: Seq<(isize, Seq<DebugRange>)>, w: IntSize) -> Seq<u8>
    decreases es.len(),
{
    if es.len() == 0 {
        seq![]
    } else {
        entries_bytes(es.drop_last(), w) + entry_bytes(es.last().0, es.last().1, w)
    }
}

/// The bytes a debug section is written as: `%D`, the range size, then its entries.
pub open spec fn debug_section_bytes(w: IntSize, es: Seq<(isize, Seq<DebugRange>)>) -> Seq<u8> {
    seq![0x25u8, 0x44u8, width(w)] + entries_bytes(es, w)
}

/// A debug section is written as `%D`, its range width in bytes, then its entries.
pub proof fn debug_section_starts_with_marker(w: IntSize, es: Seq<(isize, Seq<DebugRange>)>)
    ensures
        debug_section_bytes(w, es).take(3) == seq!['%' as u8, 'D' as u8, width(w)],
{
    assert(debug_section_bytes(w, es).take(3) =~= seq!['%' as u8, 'D' as u8, width(w)]);
}

/// Reads debug entries from `pos` to the end of the buffer.
pub open spec fn decode_entries(data: Seq<u8>, pos: int, w: IntSize) -> (
    Result<Seq<(isize, Seq<DebugRange>)>, DebugSectionParseError>,
    int,
)
    decreases data.len() - pos,
{
    if pos >= data.len() {
        (Ok(seq![]), pos)
    } else {
        match decode_entry(data, pos, w) {
            (Err(e), p) => (Err(DebugSectionParseError::DebugEntryParseError(p as usize, e)), p),
            (Ok(en), p) => if p <= pos || p > data.len() {
                (Ok(seq![]), p)
            } else {
                match decode_entries(data, p, w) {
                    (Ok(es), q) => (Ok(seq![en] + es), q),
                    (Err(e), q) => (Err(e), q),
                }
            },
        }
    }
}

/// What `DebugSection::parse` reads at `pos`, where the `D` of its `%D` stands: the range
/// size, then entries up to the end of the buffer.
pub open spec fn decode_debug_section(data: Seq<u8>, pos: int) -> (
    Result<(IntSize, Seq<(isize, Seq<DebugRange>)>), DebugSectionParseError>,
    int,
) {
    match byte_at(data, pos + 1) {
        None => (Err(DebugSectionParseError::MissingDebugRangeSize), pos + 1),
        Some(raw) => match int_size_of(raw) {
            None => (Err(DebugSectionParseError::InvalidDebugRangeSize(raw)), pos + 2),
            Some(w) => match decode_entries(data, pos + 2, w) {
                (Ok(es), q) => (Ok((w, es)), q),
                (Err(e), q) => (Err(e), q),
            },
        },
    }
}

/// A debug section in a KSM file
///
/// The section of a KSM file that is dedicated to presenting (somewhat) better error messages
/// to the user of the program. This section maps source code lines to ranges of bytes in the file.
#[derive(Debug, Clone)]
pub struct DebugSection {
    range_size: IntSize,
    debug_entries: Vec<DebugEntry>,
}

impl DebugSection {
    /// The number of bytes each range start and end is written with.
    pub closed spec fn range_width(&self) -> IntSize {
        self.range_size
    }

    /// The entries of this section, in order.
    pub closed spec fn entries_view(&self) -> Seq<(isize, Seq<DebugRange>)> {
        self.debug_entries@.map_values(|e: DebugEntry| entry_view(e))
    }

    /// Creates a new empty debug section, defaulting to a debug range size of 1 byte
    pub fn new() -> (r: Self)
        ensures
            r.range_width() == IntSize::One,
            r.entries_view() == Seq::<(isize, Seq<DebugRange>)>::empty(),
    {
        let r = Self { range_size: IntSize::One, debug_entries: Vec::new() };
        assert(r.entries_view() =~= Seq::<(isize, Seq<DebugRange>)>::empty());
        r
    }

    /// A builder-style method that takes the DebugEntries that should be added to this
    /// DebugSection, in order
    pub fn with_entries(self, entries: Vec<DebugEntry>) -> (r: Self)
        ensures
            r.entries_view() == self.entries_view() + entries@.map_values(
                |e: DebugEntry| entry_view(e),
            ),
            r.range_width() == grown_range_size(
                self.range_width(),
                flat_ranges(entries@.map_values(|e: DebugEntry| entry_view(e))),
            ),
    {
        let mut section = self;
        let ghost start = section;
        let mut entries = entries;
        let ghost all = entries@.map_values(|e: DebugEntry| entry_view(e));
        let mut i: usize = 0;
        let n = entries.len();
        while i < n
            invariant
                n == all.len(),
                i <= n,
                entries@.len() == n - i,
                forall|j: int| 0 <= j < n - i ==> entry_view(#[trigger] entries@[j]) == all[i + j],
                section.entries_view() == start.entries_view() + all.take(i as int),
                section.range_width() == grown_range_size(
                    start.range_width(),
                    flat_ranges(all.take(i as int)),
                ),
            decreases n - i,
        {
            let ghost prev = entries@;
            let e = entries.remove(0);
            proof {
                assert(entry_view(prev[0]) == all[i + 0]);
                assert(all.take(i + 1) == all.take(i as int).push(all[i as int]));
                lemma_flat_ranges_push(all.take(i as int), all[i as int]);
                lemma_grown_range_size_append(
                    start.range_width(),
                    flat_ranges(all.take(i as int)),
                    e.ranges_view(),
                );
                assert forall|j: int| 0 <= j < n - (i + 1) implies entry_view(
                    #[trigger] entries@[j],
                ) == all[(i + 1) + j] by {
                    assert(entries@[j] == prev[j + 1]);
                    assert(entry_view(prev[j + 1]) == all[i + (j + 1)]);
                }
            }
            section.add(e);
            i = i + 1;
        }
        assert(all.take(n as int) == all);
        section
    }

    /// Adds a new debug entry to this debug section, widening the range size as far as
    /// the entry's ranges need.
    pub fn add(&mut self, entry: DebugEntry)
        ensures
            final(self).entries_view() == old(self).entries_view().push(entry_view(entry)),
            final(self).range_width() == grown_range_size(
                old(self).range_width(),
                entry.ranges_view(),
            ),
            (forall|i: int|
                0 <= i < entry.ranges_view().len() ==> #[trigger] entry.ranges_view()[i].start
                    <= u32::MAX && entry.ranges_view()[i].end <= u32::MAX) ==> {
                &&& width(final(self).range_width()) >= width(old(self).range_width())
                &&& forall|i: int|
                    0 <= i < entry.ranges_view().len() ==> range_fits(
                        #[trigger] entry.ranges_view()[i],
                        final(self).range_width(),
                    )
            },
    {
        let ghost start = self.range_size;
        proof {
            if forall|i: int|
                0 <= i < entry.ranges_view().len() ==> #[trigger] entry.ranges_view()[i].start
                    <= u32::MAX && entry.ranges_view()[i].end <= u32::MAX {
                grown_range_size_covers(start, entry.ranges_view());
            }
        }
        let mut i: usize = 0;
        // Check to see if we need to alter our range size bytes
        while i < entry.number_ranges()
            invariant
                i <= entry.ranges_view().len(),
                self.debug_entries@ == old(self).debug_entries@,
                self.range_size == grown_range_size(start, entry.ranges_view().take(i as int)),
            decreases entry.ranges_view().len() - i,
        {
            let range = entry.get_range(i).unwrap();
            let larger = if range.start >= range.end {
                range.start
            } else {
                range.end
            };
            let size = fewest_bytes_to_hold(larger as u32);
            proof {
                let rs = entry.ranges_view();
                assert(rs.take(i + 1).drop_last() == rs.take(i as int));
                assert(rs.take(i + 1).last() == rs[i as int]);
            }
            if u8::from(size) > u8::from(self.range_size) {
                self.range_size = size;
            }
            i = i + 1;
        }
        assert(entry.ranges_view().take(entry.ranges_view().len() as int) == entry.ranges_view());
        self.debug_entries.push(entry);
        assert(self.entries_view() =~= old(self).entries_view().push(entry_view(entry)));
    }

    /// Returns an iterator over all of the debug entries contained within this section
    pub fn debug_entries(&self) -> (r: std::slice::Iter<'_, DebugEntry>)
        ensures
            vstd::std_specs::slice::into_iter_elts(r).map_values(|e: DebugEntry| entry_view(e))
                == self.entries_view(),
    {
        self.debug_entries.as_slice().iter()
    }

    /// Specified in the debug section's header, the size, in bytes, of a debug range
    /// in all debug entries. This corresponds to the argument section's NumArgIndexBytes.
    /// This is needed to know how many bytes are required to represent an index into this KSM file's
    /// code sections.
    pub fn range_size(&self) -> (r: IntSize)
        ensures
            r == self.range_width(),
    {
        self.range_size
    }

    /// Returns the current size of this debug section in bytes
    pub fn size_bytes(&self) -> (r: usize)
        requires
            3 + entries_size(self.entries_view(), self.range_width()) <= usize::MAX,
        ensures
            r == 3 + entries_size(self.entries_view(), self.range_width()),
    {
        let ghost es = self.entries_view();
        let mut total: usize = 3;
        let mut i: usize = 0;
        while i < self.debug_entries.len()
            invariant
                i <= self.debug_entries@.len(),
                es == self.entries_view(),
                3 + entries_size(es, self.range_size) <= usize::MAX,
                total == 3 + entries_size(es.take(i as int), self.range_size),
            decreases self.debug_entries@.len() - i,
        {
            proof {
                assert(es.take(i + 1).drop_last() == es.take(i as int));
                assert(es[i as int] == entry_view(self.debug_entries@[i as int]));
                lemma_entries_size_prefix(es, i + 1, self.range_size);
            }
            total = total + self.debug_entries[i].size_bytes(self.range_size);
            i = i + 1;
        }
        assert(es.take(es.len() as int) == es);
        total
    }

    /// Converts this debug section into bytes and writes it to the provided buffer.
    pub fn write(&self, buf: &mut Vec<u8>)
        ensures
            final(buf)@ == old(buf)@ + debug_section_bytes(self.range_width(), self.entries_view()),
            final(buf)@.len() == old(buf)@.len() + 3 + entries_size(self.entries_view(), self.range_width()),
    {
        proof {
            debug_section_size(self.range_width(), self.entries_view());
        }
        let ghost start = buf@;
        let ghost es = self.entries_view();
        buf.push(0x25);
        buf.push(0x44);
        buf.push(u8::from(self.range_size));
        let ghost head = buf@;
        let mut i: usize = 0;
        while i < self.debug_entries.len()
            invariant
                i <= self.debug_entries@.len(),
                es == self.entries_view(),
                head == start + seq![0x25u8, 0x44u8, width(self.range_size)],
                buf@ == head + entries_bytes(es.take(i as int), self.range_size),
            decreases self.debug_entries@.len() - i,
        {
            proof {
                assert(es.take(i + 1).drop_last() == es.take(i as int));
                assert(es[i as int] == entry_view(self.debug_entries@[i as int]));
            }
            self.debug_entries[i].write(buf, self.range_size);
            i = i + 1;
        }
        assert(es.take(es.len() as int) == es);
    }

    /// Parses a debug section from bytes: the `%` before it has already been read, and the
    /// `D` after that must stand at the reader's position. Entries are read up to the end
    /// of the buffer.
    pub fn parse(source: &mut BufferIterator) -> (r: Result<Self, DebugSectionParseError>)
        requires
            old(source).wf(),
            byte_at(old(source).data(), old(source).pos()) == Some(0x44u8),
        ensures
            final(source).wf(),
            final(source).data() == old(source).data(),
            final(source).pos() == decode_debug_section(old(source).data(), old(source).pos()).1,
            match decode_debug_section(old(source).data(), old(source).pos()).0 {
                Ok((w, es)) => r matches Ok(sec) && sec.range_width() == w && sec.entries_view() == es,
                Err(e) => r matches Err(e2) && e2 == e,
            },
    {
        let ghost orig_pos = source.pos();
        // The `D` of the section header
        source.next();
        let raw_range_size = match source.next() {
            Some(b) => b,
            None => {
                return Err(DebugSectionParseError::MissingDebugRangeSize);
            },
        };
        let range_size = match IntSize::try_from(raw_range_size) {
            Ok(w) => w,
            Err(_) => {
                return Err(DebugSectionParseError::InvalidDebugRangeSize(raw_range_size));
            },
        };
        let ghost data = source.data();
        let ghost start = source.pos();
        let mut debug_entries: Vec<DebugEntry> = Vec::new();
        let mut failure: Option<DebugSectionParseError> = None;
        assert(debug_entries@.map_values(|e: DebugEntry| entry_view(e)) =~= Seq::<(isize, Seq<DebugRange>)>::empty());
        loop
            invariant_except_break
                failure is None,
                decode_entries(data, start, range_size) == match decode_entries(
                    data,
                    source.pos(),
                    range_size,
                ) {
                    (Ok(es), q) => (Ok(debug_entries@.map_values(|e: DebugEntry| entry_view(e)) + es), q),
                    (Err(e), q) => (Err::<Seq<(isize, Seq<DebugRange>)>, DebugSectionParseError>(e), q),
                },
            invariant
                source.wf(),
                source.data() == data,
                start == orig_pos + 2,
                decode_debug_section(data, orig_pos) == match decode_entries(data, start, range_size) {
                    (Ok(es), q) => (Ok((range_size, es)), q),
                    (Err(e), q) => (Err::<(IntSize, Seq<(isize, Seq<DebugRange>)>), DebugSectionParseError>(e), q),
                },
            ensures
                match failure {
                    Some(e) => decode_entries(data, start, range_size) == (
                        Err::<Seq<(isize, Seq<DebugRange>)>, DebugSectionParseError>(e),
                        source.pos(),
                    ),
                    None => decode_entries(data, start, range_size) == (
                        Ok::<Seq<(isize, Seq<DebugRange>)>, DebugSectionParseError>(
                            debug_entries@.map_values(|e: DebugEntry| entry_view(e)),
                        ),
                        source.pos(),
                    ),
                },
            decreases data.len() - source.pos(),
        {
            let ghost here = source.pos();
            if source.peek().is_none() {
                assert(debug_entries@.map_values(|e: DebugEntry| entry_view(e)) + Seq::<(isize, Seq<DebugRange>)>::empty()
                    == debug_entries@.map_values(|e: DebugEntry| entry_view(e)));
                break ;
            }
            proof {
                lemma_decode_entry_advances(data, here, range_size);
            }
            match DebugEntry::parse(source, range_size) {
                Ok(entry) => {
                    let ghost before = debug_entries@.map_values(|e: DebugEntry| entry_view(e));
                    debug_entries.push(entry);
                    proof {
                        assert(debug_entries@.map_values(|e: DebugEntry| entry_view(e)) =~= before.push(entry_view(entry)));
                        match decode_entries(data, source.pos(), range_size) {
                            (Ok(es), q) => {
                                assert(before + (seq![entry_view(entry)] + es) == before.push(entry_view(entry)) + es);
                            },
                            _ => {},
                        }
                    }
                },
                Err(e) => {
                    failure = Some(DebugSectionParseError::DebugEntryParseError(source.current_index(), e));
                    break ;
                },
            }
        }
        match failure {
            Some(e) => Err(e),
            None => Ok(DebugSection { range_size, debug_entries }),
        }
    }
}

/// All the ranges of a sequence of entries, in order.
pub open spec fn flat_ranges(es: Seq<(isize, Seq<DebugRange>)>) -> Seq<DebugRange>
    decreases es.len(),
{
    if es.len() == 0 {
        seq![]
    } else {
        flat_ranges(es.drop_last()) + es.last().1
    }
}

/// Whether the range `r` can be written with ranges of `w` bytes: its start and end both fit.
pub open spec fn range_fits(r: DebugRange, w: IntSize) -> bool {
    r.start <= int_size_max(w) && r.end <= int_size_max(w)
}

/// Growing the range size over ranges whose starts and ends fit in a `u32` never makes it
/// smaller, and leaves it wide enough for every one of those ranges.
pub proof fn grown_range_size_covers(w: IntSize, rs: Seq<DebugRange>)
    requires
        forall|i: int| 0 <= i < rs.len() ==> #[trigger] rs[i].start <= u32::MAX && rs[i].end <= u32::MAX,
    ensures
        width(grown_range_size(w, rs)) >= width(w),
        forall|i: int| 0 <= i < rs.len() ==> range_fits(#[trigger] rs[i], grown_range_size(w, rs)),
    decreases rs.len(),
{
    if rs.len() > 0 {
        let d = rs.drop_last();
        assert forall|i: int| 0 <= i < d.len() implies #[trigger] d[i].start <= u32::MAX && d[i].end
            <= u32::MAX by {
            assert(d[i] == rs[i]);
        }
        grown_range_size_covers(w, d);
        let before = grown_range_size(w, d);
        let r = rs.last();
        assert(r == rs[rs.len() - 1]);
        let m = (if r.start >= r.end { r.start } else { r.end }) as u32;
        crate::ksm::fewest_bytes_holds(m);
        let g = grown_range_size(w, rs);
        assert(width(g) >= width(before));
        assert(forall|x: IntSize, y: IntSize| width(x) >= width(y) ==> int_size_max(x) >= int_size_max(y));
        assert forall|i: int| 0 <= i < rs.len() implies range_fits(#[trigger] rs[i], g) by {
            if i < rs.len() - 1 {
                assert(rs[i] == d[i]);
                assert(range_fits(d[i], before));
            }
        }
    }
}

/// Adding an entry adds its ranges after those already there.
pub proof fn lemma_flat_ranges_push(es: Seq<(isize, Seq<DebugRange>)>, e: (isize, Seq<DebugRange>))
    ensures
        flat_ranges(es.push(e)) == flat_ranges(es) + e.1,
{
    assert(es.push(e).drop_last() == es);
}

/// Growing the range size over two runs of ranges in turn is growing it over both.
pub proof fn lemma_grown_range_size_append(w: IntSize, a: Seq<DebugRange>, b: Seq<DebugRange>)
    ensures
        grown_range_size(grown_range_size(w, a), b) == grown_range_size(w, a + b),
    decreases b.len(),
{
    if b.len() == 0 {
        assert(a + b == a);
    } else {
        lemma_grown_range_size_append(w, a, b.drop_last());
        assert((a + b).drop_last() == a + b.drop_last());
        assert((a + b).last() == b.last());
    }
}

/// The size of a prefix of a sequence of entries is at most the size of the whole.
pub proof fn lemma_entries_size_prefix(s: Seq<(isize, Seq<DebugRange>)>, i: int, w: IntSize)
    requires
        0 <= i <= s.len(),
    ensures
        entries_size(s.take(i), w) <= entries_size(s, w),
    decreases s.len(),
{
    if i < s.len() {
        assert(s.drop_last().take(i) == s.take(i));
        lemma_entries_size_prefix(s.drop_last(), i, w);
    } else {
        assert(s.take(i) == s);
    }
}

/// A debug entry that is read back as itself after it has been written with `w` bytes per
/// range number: its line number fits in 16 bits, it has at most 255 ranges, and each range's
/// start and end fit in `w` bytes.
pub open spec fn entry_round_trips(e: (isize, Seq<DebugRange>), w: IntSize) -> bool {
    &&& i16::MIN <= e.0 <= i16::MAX
    &&& e.1.len() <= 255
    &&& forall|k: int|
        0 <= k < e.1.len() ==> #[trigger] e.1[k].start <= int_size_max(w) && e.1[k].end
            <= int_size_max(w)
}

/// A number written in `w` bytes that can hold it is read back as itself.
pub proof fn lemma_var_int_at(value: u32, w: IntSize, prefix: Seq<u8>, rest: Seq<u8>)
    requires
        value <= int_size_max(w),
    ensures
        decode_var_int(prefix + var_int_bytes(value, w) + rest, prefix.len() as int, w) == (
            Ok::<u32, ()>(value),
            (prefix.len() + width(w)) as int,
        ),
{
    var_int_round_trip(value, w);
    lemma_take_middle(prefix, var_int_bytes(value, w), rest);
}

/// A range whose start and end fit in `w` bytes is read back as itself.
pub proof fn range_round_trip(r: DebugRange, w: IntSize, prefix: Seq<u8>, rest: Seq<u8>)
    requires
        r.start <= int_size_max(w),
        r.end <= int_size_max(w),
    ensures
        decode_range(prefix + range_bytes(r, w) + rest, prefix.len() as int, w) == (
            Ok::<DebugRange, ()>(r),
            (prefix.len() + 2 * width(w)) as int,
        ),
{
    let a = var_int_bytes(r.start as u32, w);
    let b = var_int_bytes(r.end as u32, w);
    var_int_round_trip(r.start as u32, w);
    assert(prefix + range_bytes(r, w) + rest =~= prefix + a + (b + rest));
    lemma_var_int_at(r.start as u32, w, prefix, b + rest);
    assert(prefix + range_bytes(r, w) + rest =~= (prefix + a) + b + rest);
    lemma_var_int_at(r.end as u32, w, prefix + a, rest);
}

/// The bytes and size of ranges that start with `r` are those of `r` followed by those of
/// the rest.
pub proof fn lemma_ranges_prepend(r: DebugRange, s: Seq<DebugRange>, w: IntSize)
    ensures
        ranges_bytes(seq![r] + s, w) == range_bytes(r, w) + ranges_bytes(s, w),
        ranges_size(seq![r] + s, w) == 2 * width(w) + ranges_size(s, w),
    decreases s.len(),
{
    let t = seq![r] + s;
    if s.len() == 0 {
        assert(t.drop_last() == Seq::<DebugRange>::empty());
        assert(t.last() == r);
        assert(ranges_bytes(t.drop_last(), w) == Seq::<u8>::empty());
        assert(ranges_size(t.drop_last(), w) == 0);
        assert(ranges_bytes(s, w) == Seq::<u8>::empty());
        assert(ranges_bytes(t, w) =~= range_bytes(r, w) + ranges_bytes(s, w));
    } else {
        lemma_ranges_prepend(r, s.drop_last(), w);
        assert(t.drop_last() == seq![r] + s.drop_last());
        assert(t.last() == s.last());
        assert(ranges_bytes(t, w) == ranges_bytes(t.drop_last(), w) + range_bytes(t.last(), w));
        assert(ranges_bytes(s, w) == ranges_bytes(s.drop_last(), w) + range_bytes(s.last(), w));
        assert(range_bytes(r, w) + ranges_bytes(s.drop_last(), w) + range_bytes(s.last(), w)
            =~= range_bytes(r, w) + (ranges_bytes(s.drop_last(), w) + range_bytes(s.last(), w)));
    }
}

/// Reading the ranges numbered `i` on where a range that fits in `w` bytes was written: that
/// range, then the ranges read after it.
proof fn lemma_ranges_cons(
    r: DebugRange,
    tail: Seq<DebugRange>,
    w: IntSize,
    i: nat,
    n: nat,
    prefix: Seq<u8>,
    rest: Seq<u8>,
    q: int,
)
    requires
        i < n,
        r.start <= int_size_max(w),
        r.end <= int_size_max(w),
        decode_ranges(prefix + range_bytes(r, w) + rest, (prefix.len() + 2 * width(w)) as int, w, i + 1, n)
            == (Ok::<Seq<DebugRange>, DebugEntryParseError>(tail), q),
    ensures
        decode_ranges(prefix + range_bytes(r, w) + rest, prefix.len() as int, w, i, n) == (
            Ok::<Seq<DebugRange>, DebugEntryParseError>(seq![r] + tail),
            q,
        ),
{
    range_round_trip(r, w, prefix, rest);
}

/// Ranges whose numbers fit in `w` bytes, written one after the other, are read back as
/// themselves, as the ranges numbered `i` to `i + s.len() - 1` of an entry.
pub proof fn ranges_round_trip(s: Seq<DebugRange>, w: IntSize, i: nat, prefix: Seq<u8>, rest: Seq<u8>)
    requires
        forall|k: int|
            0 <= k < s.len() ==> #[trigger] s[k].start <= int_size_max(w) && s[k].end
                <= int_size_max(w),
    ensures
        decode_ranges(prefix + ranges_bytes(s, w) + rest, prefix.len() as int, w, i, i + s.len())
            == (Ok::<Seq<DebugRange>, DebugEntryParseError>(s), (prefix.len() + ranges_size(s, w)) as int),
    decreases s.len(),
{
    let data = prefix + ranges_bytes(s, w) + rest;
    let n = prefix.len() as int;
    if s.len() == 0 {
        assert(s =~= Seq::<DebugRange>::empty());
        assert(ranges_size(s, w) == 0);
    } else {
        let r = s[0];
        let tail = s.drop_first();
        let rb = range_bytes(r, w);
        assert(s == seq![r] + tail);
        lemma_ranges_prepend(r, tail, w);
        assert forall|k: int| 0 <= k < tail.len() implies #[trigger] tail[k].start <= int_size_max(w)
            && tail[k].end <= int_size_max(w) by {
            assert(tail[k] == s[k + 1]);
        }
        assert(s[0].start <= int_size_max(w) && s[0].end <= int_size_max(w));
        var_int_round_trip(r.start as u32, w);
        var_int_round_trip(r.end as u32, w);
        assert(rb.len() == 2 * width(w));
        ranges_round_trip(tail, w, i + 1, prefix + rb, rest);
        assert(data =~= (prefix + rb) + ranges_bytes(tail, w) + rest);
        assert(data =~= prefix + rb + (ranges_bytes(tail, w) + rest));
        assert(i + s.len() == (i + 1) + tail.len());
        lemma_ranges_cons(
            r,
            tail,
            w,
            i,
            i + s.len(),
            prefix,
            ranges_bytes(tail, w) + rest,
            n + ranges_size(s, w),
        );
    }
}

/// A debug entry that reads back as itself, written with `w` bytes per range number, is read
/// back as its line number and its ranges.
pub proof fn entry_round_trip(e: (isize, Seq<DebugRange>), w: IntSize, prefix: Seq<u8>, rest: Seq<u8>)
    requires
        entry_round_trips(e, w),
    ensures
        decode_entry(prefix + entry_bytes(e.0, e.1, w) + rest, prefix.len() as int, w) == (
            Ok::<(isize, Seq<DebugRange>), DebugEntryParseError>(e),
            (prefix.len() + 3 + ranges_size(e.1, w)) as int,
        ),
{
    let data = prefix + entry_bytes(e.0, e.1, w) + rest;
    let n = prefix.len() as int;
    let line = (e.0 as i16) as u16;
    let head = le_u16(line) + seq![e.1.len() as u8];
    assert(data =~= (prefix + head) + ranges_bytes(e.1, w) + rest);
    assert(data.subrange(n, n + 2) =~= le_u16(line));
    lemma_u16_at(data, n, line);
    let l = e.0;
    assert(((line as i16) as isize) == l) by (bit_vector)
        requires
            line == (l as i16) as u16,
            i16::MIN <= l <= i16::MAX,
    ;
    assert(data[n + 2] == e.1.len() as u8);
    ranges_round_trip(e.1, w, 0, prefix + head, rest);
}

/// The bytes and size of entries that start with `e` are those of `e` followed by those of
/// the rest.
pub proof fn lemma_entries_prepend(
    e: (isize, Seq<DebugRange>),
    s: Seq<(isize, Seq<DebugRange>)>,
    w: IntSize,
)
    ensures
        entries_bytes(seq![e] + s, w) == entry_bytes(e.0, e.1, w) + entries_bytes(s, w),
        entries_size(seq![e] + s, w) == 3 + ranges_size(e.1, w) + entries_size(s, w),
    decreases s.len(),
{
    let t = seq![e] + s;
    if s.len() == 0 {
        assert(t.drop_last() == Seq::<(isize, Seq<DebugRange>)>::empty());
        assert(t.last() == e);
        assert(entries_bytes(t.drop_last(), w) == Seq::<u8>::empty());
        assert(entries_size(t.drop_last(), w) == 0);
        assert(entries_bytes(s, w) == Seq::<u8>::empty());
        assert(entries_bytes(t, w) =~= entry_bytes(e.0, e.1, w) + entries_bytes(s, w));
    } else {
        lemma_entries_prepend(e, s.drop_last(), w);
        assert(t.drop_last() == seq![e] + s.drop_last());
        assert(t.last() == s.last());
        assert(entries_bytes(t, w) == entries_bytes(t.drop_last(), w) + entry_bytes(
            t.last().0,
            t.last().1,
            w,
        ));
        assert(entries_bytes(s, w) == entries_bytes(s.drop_last(), w) + entry_bytes(
            s.last().0,
            s.last().1,
            w,
        ));
        assert(entry_bytes(e.0, e.1, w) + entries_bytes(s.drop_last(), w) + entry_bytes(
            s.last().0,
            s.last().1,
            w,
        ) =~= entry_bytes(e.0, e.1, w) + (entries_bytes(s.drop_last(), w) + entry_bytes(
            s.last().0,
            s.last().1,
            w,
        )));
    }
}

/// Reading debug entries where an entry that reads back as itself was written: that entry,
/// then the entries read after it.
proof fn lemma_entries_cons(
    e: (isize, Seq<DebugRange>),
    tail: Seq<(isize, Seq<DebugRange>)>,
    w: IntSize,
    prefix: Seq<u8>,
    rest: Seq<u8>,
    q: int,
)
    requires
        entry_round_trips(e, w),
        decode_entries(
            prefix + entry_bytes(e.0, e.1, w) + rest,
            (prefix.len() + 3 + ranges_size(e.1, w)) as int,
            w,
        ) == (Ok::<Seq<(isize, Seq<DebugRange>)>, DebugSectionParseError>(tail), q),
    ensures
        decode_entries(prefix + entry_bytes(e.0, e.1, w) + rest, prefix.len() as int, w) == (
            Ok::<Seq<(isize, Seq<DebugRange>)>, DebugSectionParseError>(seq![e] + tail),
            q,
        ),
{
    let data = prefix + entry_bytes(e.0, e.1, w) + rest;
    entry_round_trip(e, w, prefix, rest);
    lemma_ranges_bytes_len(e.1, w);
    assert(entry_bytes(e.0, e.1, w).len() == 3 + ranges_size(e.1, w));
}

/// The bytes of ranges number their size.
pub proof fn lemma_ranges_bytes_len(s: Seq<DebugRange>, w: IntSize)
    requires
        forall|k: int|
            0 <= k < s.len() ==> #[trigger] s[k].start <= int_size_max(w) && s[k].end
                <= int_size_max(w),
    ensures
        ranges_bytes(s, w).len() == ranges_size(s, w),
    decreases s.len(),
{
    if s.len() > 0 {
        assert forall|k: int| 0 <= k < s.drop_last().len() implies #[trigger] s.drop_last()[k].start
            <= int_size_max(w) && s.drop_last()[k].end <= int_size_max(w) by {
            assert(s.drop_last()[k] == s[k]);
        }
        lemma_ranges_bytes_len(s.drop_last(), w);
        let r = s.last();
        assert(r == s[s.len() - 1]);
        var_int_round_trip(r.start as u32, w);
        var_int_round_trip(r.end as u32, w);
    }
}

/// Debug entries that read back as themselves, written at the end of a buffer, are read back
/// as themselves.
#[verifier::rlimit(90)]
pub proof fn entries_round_trip(es: Seq<(isize, Seq<DebugRange>)>, w: IntSize, prefix: Seq<u8>)
    requires
        forall|k: int| 0 <= k < es.len() ==> entry_round_trips(#[trigger] es[k], w),
    ensures
        decode_entries(prefix + entries_bytes(es, w), prefix.len() as int, w) == (
            Ok::<Seq<(isize, Seq<DebugRange>)>, DebugSectionParseError>(es),
            (prefix.len() + entries_size(es, w)) as int,
        ),
    decreases es.len(),
{
    let data = prefix + entries_bytes(es, w);
    let n = prefix.len() as int;
    if es.len() == 0 {
        assert(entries_bytes(es, w) == Seq::<u8>::empty());
        assert(data == prefix);
        assert(es =~= Seq::<(isize, Seq<DebugRange>)>::empty());
        assert(entries_size(es, w) == 0);
    } else {
        let e = es[0];
        let tail = es.drop_first();
        let eb = entry_bytes(e.0, e.1, w);
        assert(es == seq![e] + tail);
        lemma_entries_prepend(e, tail, w);
        assert forall|k: int| 0 <= k < tail.len() implies entry_round_trips(#[trigger] tail[k], w) by {
            assert(tail[k] == es[k + 1]);
        }
        assert(entry_round_trips(es[0], w));
        lemma_ranges_bytes_len(e.1, w);
        assert(eb.len() == 3 + ranges_size(e.1, w));
        entries_round_trip(tail, w, prefix + eb);
        assert(data =~= (prefix + eb) + entries_bytes(tail, w));
        assert(data =~= prefix + eb + entries_bytes(tail, w));
        lemma_entries_cons(e, tail, w, prefix, entries_bytes(tail, w), n + entries_size(es, w));
    }
}

/// Every IntSize is read back from its width.
pub proof fn lemma_int_size_of_width(w: IntSize)
    ensures
        int_size_of(width(w)) == Some(w),
{
}

/// Writing a debug section whose entries read back as themselves at the end of a buffer, and
/// reading it back from the `D` of its `%D`, gives its range size and its entries.
pub proof fn debug_section_round_trip(
    w: IntSize,
    es: Seq<(isize, Seq<DebugRange>)>,
    prefix: Seq<u8>,
)
    requires
        forall|k: int| 0 <= k < es.len() ==> entry_round_trips(#[trigger] es[k], w),
    ensures
        decode_debug_section(prefix + debug_section_bytes(w, es), prefix.len() + 1int) == (
            Ok::<(IntSize, Seq<(isize, Seq<DebugRange>)>), DebugSectionParseError>((w, es)),
            (prefix.len() + 3 + entries_size(es, w)) as int,
        ),
{
    let data = prefix + debug_section_bytes(w, es);
    let n = prefix.len() as int;
    let head = seq![0x25u8, 0x44u8, width(w)];
    assert(data =~= (prefix + head) + entries_bytes(es, w));
    assert(data[n + 2] == width(w));
    lemma_int_size_of_width(w);
    entries_round_trip(es, w, prefix + head);
}

/// The bytes of any entries number their size, whatever their ranges hold.
pub proof fn lemma_entries_bytes_len(es: Seq<(isize, Seq<DebugRange>)>, w: IntSize)
    ensures
        entries_bytes(es, w).len() == entries_size(es, w),
    decreases es.len(),
{
    if es.len() > 0 {
        lemma_entries_bytes_len(es.drop_last(), w);
        lemma_any_ranges_bytes_len(es.last().1, w);
    }
}

/// The bytes of any ranges number their size: every number takes `w` bytes.
pub proof fn lemma_any_ranges_bytes_len(s: Seq<DebugRange>, w: IntSize)
    ensures
        ranges_bytes(s, w).len() == ranges_size(s, w),
    decreases s.len(),
{
    if s.len() > 0 {
        lemma_any_ranges_bytes_len(s.drop_last(), w);
    }
}

/// The size of a debug section, as `DebugSection::size_bytes` counts it, is the number of
/// bytes `DebugSection::write` writes.
pub proof fn debug_section_size(w: IntSize, es: Seq<(isize, Seq<DebugRange>)>)
    ensures
        debug_section_bytes(w, es).len() == 3 + entries_size(es, w),
{
    lemma_entries_bytes_len(es, w);
}

} // verus!
