//! A module describing a string table section in a Kerbal Object file
use vstd::prelude::*;
use vstd::utf8::{
    decode_utf8, encode_scalar, encode_utf8, encode_utf8_decode_utf8, encode_utf8_valid_utf8,
    valid_utf8,
};

use crate::buffer::BufferIterator;
use crate::ko::errors::StringTableParseError;
use crate::ko::{group_section_idx, SectionIdx};
use crate::primitives::push_all;

verus! {

/// A wrapper type that represents an index into a string table of a KO file.
///
/// This type implements From<usize> and From<u32> and usize/32 implements From<StringIdx>, but this is provided
/// so that it takes 1 extra step to convert raw integers into StringIdx which could stop potential
/// logical bugs.
///
/// The empty string present in all string tables is at index 0.
#[derive(Debug, Copy, Clone, PartialEq, Eq, Hash, Structural)]
pub struct StringIdx(u32);

impl View for StringIdx {
    type V = u32;

    closed spec fn view(&self) -> u32 {
        self.0
    }
}

/// The StringIdx that holds `i`.
pub closed spec fn string_idx(i: u32) -> StringIdx {
    StringIdx(i)
}

/// A StringIdx holds the number it was made from.
pub broadcast proof fn lemma_string_idx_view(i: u32)
    ensures
        #[trigger] string_idx(i)@ == i,
{
}

/// A StringIdx is determined by the number it holds.
pub broadcast proof fn lemma_string_idx_ext(x: StringIdx)
    ensures
        x == string_idx(#[trigger] x@),
{
}

/// What is known of every StringIdx.
pub broadcast group group_string_idx {
    lemma_string_idx_view,
    lemma_string_idx_ext,
}

impl From<usize> for StringIdx {
    fn from(i: usize) -> (r: Self) {
        Self(i as u32)
    }
}

impl vstd::std_specs::convert::FromSpecImpl<usize> for StringIdx {
    open spec fn obeys_from_spec() -> bool {
        true
    }

    open spec fn from_spec(i: usize) -> StringIdx {
        string_idx(i as u32)
    }
}

impl From<u8> for StringIdx {
    fn from(i: u8) -> (r: Self) {
        Self(i as u32)
    }
}

impl vstd::std_specs::convert::FromSpecImpl<u8> for StringIdx {
    open spec fn obeys_from_spec() -> bool {
        true
    }

    open spec fn from_spec(i: u8) -> StringIdx {
        string_idx(i as u32)
    }
}

impl From<u16> for StringIdx {
    fn from(i: u16) -> (r: Self) {
        Self(i as u32)
    }
}

impl vstd::std_specs::convert::FromSpecImpl<u16> for StringIdx {
    open spec fn obeys_from_spec() -> bool {
        true
    }

    open spec fn from_spec(i: u16) -> StringIdx {
        string_idx(i as u32)
    }
}

impl From<u32> for StringIdx {
    fn from(i: u32) -> (r: Self) {
        Self(i)
    }
}

impl vstd::std_specs::convert::FromSpecImpl<u32> for StringIdx {
    open spec fn obeys_from_spec() -> bool {
        true
    }

    open spec fn from_spec(i: u32) -> StringIdx {
        string_idx(i)
    }
}

impl From<StringIdx> for usize {
    fn from(x: StringIdx) -> (r: Self) {
        x.0 as usize
    }
}

impl vstd::std_specs::convert::FromSpecImpl<StringIdx> for usize {
    open spec fn obeys_from_spec() -> bool {
        true
    }

    open spec fn from_spec(x: StringIdx) -> usize {
        x@ as usize
    }
}

impl From<StringIdx> for u32 {
    fn from(x: StringIdx) -> (r: Self) {
        x.0
    }
}

impl vstd::std_specs::convert::FromSpecImpl<StringIdx> for u32 {
    open spec fn obeys_from_spec() -> bool {
        true
    }

    open spec fn from_spec(x: StringIdx) -> u32 {
        x@
    }
}

/// Reads bytes from `pos` up to a NUL byte (which is consumed but not kept) or up to `end`,
/// whichever comes first: the bytes and the position after them, or None (with the position
/// of the end of the buffer) when the buffer ends first.
pub open spec fn read_cstr(data: Seq<u8>, pos: int, end: int) -> (Option<Seq<u8>>, int)
    decreases end - pos,
{
    if pos >= end {
        (Some(seq![]), pos)
    } else if pos >= data.len() {
        (None, pos)
    } else if data[pos] == 0 {
        (Some(seq![]), pos + 1)
    } else {
        match read_cstr(data, pos + 1, end) {
            (Some(b), q) => (Some(seq![data[pos]] + b), q),
            (None, q) => (None, q),
        }
    }
}

/// Reads strings from `pos` up to `end`; `n` strings have been read before. An error is
/// None when the buffer ended early, or the number of the string that was not UTF-8.
pub open spec fn decode_strings(data: Seq<u8>, pos: int, end: int, n: nat) -> (
    Result<Seq<Seq<char>>, Option<nat>>,
    int,
)
    decreases end - pos,
{
    if pos >= end {
        (Ok(seq![]), pos)
    } else {
        match read_cstr(data, pos, end) {
            (None, q) => (Err(None), q),
            (Some(b), q) => if !valid_utf8(b) {
                (Err(Some(n)), q)
            } else if q <= pos || q > end {
                (Ok(seq![]), q)
            } else {
                match decode_strings(data, q, end, n + 1) {
                    (Ok(ss), r) => (Ok(seq![decode_utf8(b)] + ss), r),
                    (Err(e), r) => (Err(e), r),
                }
            },
        }
    }
}

/// The bytes of a string table: each string's UTF-8 bytes followed by a NUL byte.
pub open spec fn strtab_bytes(ss: Seq<Seq<char>>) -> Seq<u8>
    decreases ss.len(),
{
    if ss.len() == 0 {
        seq![]
    } else {
        strtab_bytes(ss.drop_last()) + encode_utf8(ss.last()) + seq![0u8]
    }
}

/// The size a string table counts for its strings: each string's UTF-8 length plus one.
pub open spec fn strtab_size(ss: Seq<Seq<char>>) -> nat
    decreases ss.len(),
{
    if ss.len() == 0 {
        0
    } else {
        strtab_size(ss.drop_last()) + encode_utf8(ss.last()).len() + 1
    }
}

/// Turns UTF-8 bytes into a String with `String::from_utf8`.
///
/// Trusted: the call succeeds exactly when the bytes are valid UTF-8, and then the string is
/// their decoding. What error value comes back otherwise is not stated.
#[verifier::external_body]
fn string_from_utf8(bytes: Vec<u8>) -> (r: Result<String, std::string::FromUtf8Error>)
    ensures
        r.is_ok() == valid_utf8(bytes@),
        r.is_ok() ==> r.unwrap()@ == decode_utf8(bytes@),
{
    String::from_utf8(bytes)
}

/// Reads the bytes of one string: up to a NUL byte or until `limit` bytes have been read.
fn read_string_bytes(source: &mut BufferIterator, limit: u32) -> (r: Option<Vec<u8>>)
    requires
        old(source).wf(),
    ensures
        final(source).wf(),
        final(source).data() == old(source).data(),
        (match r {
            Some(v) => Some(v@),
            None => None,
        }, final(source).pos()) == read_cstr(
            old(source).data(),
            old(source).pos(),
            old(source).pos() + limit,
        ),
{
    let ghost data = source.data();
    let ghost start = source.pos();
    let ghost end = start + limit;
    let mut b: Vec<u8> = Vec::new();
    let mut read: u32 = 0;
    let mut ok = true;
    assert(b@ + Seq::<u8>::empty() == b@);
    loop
        invariant_except_break
            read_cstr(data, start, end) == match read_cstr(data, source.pos(), end) {
                (Some(rest), q) => (Some(b@ + rest), q),
                (None, q) => (None::<Seq<u8>>, q),
            },
            ok,
        invariant
            end == start + limit,
            source.wf(),
            source.data() == data,
            source.pos() == start + read,
            read <= limit,
        ensures
            source.wf(),
            source.data() == data,
            ok ==> read_cstr(data, start, end) == (Some(b@), source.pos()),
            !ok ==> read_cstr(data, start, end) == (None::<Seq<u8>>, source.pos()),
        decreases limit - read,
    {
        if read >= limit {
            assert(b@ + Seq::<u8>::empty() == b@);
            break ;
        }
        let c = match source.next() {
            Some(c) => c,
            None => {
                ok = false;
                break ;
            },
        };
        read = read + 1;
        if c == 0 {
            assert(b@ + Seq::<u8>::empty() == b@);
            break ;
        }
        let ghost before = b@;
        b.push(c);
        proof {
            match read_cstr(data, source.pos(), end) {
                (Some(rest), q) => {
                    assert(before + (seq![c] + rest) == before.push(c) + rest);
                },
                _ => {},
            }
        }
    }
    if ok {
        Some(b)
    } else {
        None
    }
}

/// A string table section in a KerbalObject file.
///
/// A module describing a string table section in a Kerbal Object file. This section stores
/// a list of strings, which other Kerbal Object constructs can index into.
///
/// Each section contains as its first index (index 0) an empty string.
#[derive(Debug)]
pub struct StringTable {
    contents: Vec<String>,
    section_index: SectionIdx,
    size: u32,
}

impl StringTable {
    /// The strings of this table, in order.
    pub closed spec fn strings_view(&self) -> Seq<Seq<char>> {
        self.contents@.map_values(|s: String| s@)
    }

    /// The index of this section's section header.
    pub closed spec fn index_view(&self) -> SectionIdx {
        self.section_index
    }

    /// The size in bytes this table reports.
    pub closed spec fn size_view(&self) -> u32 {
        self.size
    }

    /// Whether the size this section reports is the number of bytes its contents are
    /// written as. Every section built by `new`, `with_capacity`, `add` and `add_checked`
    /// keeps this.
    pub open spec fn size_matches(&self) -> bool {
        self.size_view() == strtab_size(self.strings_view())
    }

    /// Creates a new string table section with the provided section index
    pub fn new(section_index: SectionIdx) -> (r: Self)
        ensures
            r.size_matches(),
            r.strings_view() == seq![Seq::<char>::empty()],
            r.index_view() == section_index,
            r.size_view() == 1,
    {
        Self::with_capacity(0, section_index)
    }

    /// Creates a new string table section with the provided section index, with
    /// internal data structures pre-allocated for the provided number of strings, +1 for
    /// the null string at index 0.
    pub fn with_capacity(amount: usize, section_index: SectionIdx) -> (r: Self)
        ensures
            r.size_matches(),
            r.strings_view() == seq![Seq::<char>::empty()],
            r.index_view() == section_index,
            r.size_view() == 1,
    {
        let mut contents: Vec<String> = Vec::with_capacity(if amount < usize::MAX {
            1 + amount
        } else {
            amount
        });
        contents.push(String::new());
        let r = Self { contents, section_index, size: 1 };
        assert(r.strings_view() =~= seq![Seq::<char>::empty()]);
        assert(r.strings_view().drop_last() =~= Seq::<Seq<char>>::empty());
        assert(encode_utf8(Seq::<char>::empty()).len() == 0);
        assert(r.strings_view().last() == Seq::<char>::empty());
        assert(strtab_size(r.strings_view()) == strtab_size(r.strings_view().drop_last())
            + encode_utf8(r.strings_view().last()).len() + 1);
        assert(strtab_size(Seq::<Seq<char>>::empty()) == 0);
        r
    }

    /// Gets the string at the index into this string table, or None if it doesn't
    /// exist
    pub fn get(&self, index: StringIdx) -> (r: Option<&String>)
        ensures
            index@ < self.strings_view().len() ==> (r matches Some(s) && s@
                == self.strings_view()[index@ as int]),
            index@ >= self.strings_view().len() ==> r is None,
    {
        proof {
            broadcast use group_string_idx;
        }
        let i = usize::from(index);
        if i < self.contents.len() {
            Some(&self.contents[i])
        } else {
            None
        }
    }

    /// Locates a given string in this string table and returns the index
    /// if it does exist, or None if it doesn't. When the string is in the table more than
    /// once, the index of the last one is returned.
    pub fn position(&self, s: &str) -> (r: Option<StringIdx>)
        ensures
            r is None ==> forall|i: int|
                0 <= i < self.strings_view().len() ==> self.strings_view()[i] != s@,
            r matches Some(idx) ==> exists|i: int|
                0 <= i < self.strings_view().len() && self.strings_view()[i] == s@ && idx@ == i
                    as u32 && forall|j: int|
                    i < j < self.strings_view().len() ==> self.strings_view()[j] != s@,
    {
        proof {
            broadcast use group_string_idx;
        }
        let mut i = self.contents.len();
        while i > 0
            invariant
                i <= self.contents@.len(),
                forall|j: int|
                    i <= j < self.strings_view().len() ==> self.strings_view()[j] != s@,
            decreases i,
        {
            i = i - 1;
            assert(self.strings_view()[i as int] == self.contents@[i as int]@);
            if crate::opcode::str_eq(self.contents[i].as_str(), s) {
                return Some(StringIdx(i as u32));
            }
        }
        None
    }

    /// Locates a given string in this string table and returns a reference to the copy held
    /// in the table (the last one, when there are several), or None if it isn't there.
    pub fn find(&self, s: &str) -> (r: Option<&String>)
        ensures
            r is None ==> forall|i: int|
                0 <= i < self.strings_view().len() ==> self.strings_view()[i] != s@,
            r matches Some(found) ==> found@ == s@,
    {
        let mut i = self.contents.len();
        while i > 0
            invariant
                i <= self.contents@.len(),
                forall|j: int|
                    i <= j < self.strings_view().len() ==> self.strings_view()[j] != s@,
            decreases i,
        {
            i = i - 1;
            assert(self.strings_view()[i as int] == self.contents@[i as int]@);
            if crate::opcode::str_eq(self.contents[i].as_str(), s) {
                return Some(&self.contents[i]);
            }
        }
        None
    }

    /// Returns an iterator over all of the strings contained in this string table
    pub fn strings(&self) -> (r: std::slice::Iter<'_, String>)
        ensures
            vstd::std_specs::slice::into_iter_elts(r).map_values(|s: String| s@)
                == self.strings_view(),
    {
        self.contents.as_slice().iter()
    }

    /// Adds a string to this string table, but checks if it is already in this table.
    /// Returns the index of the string, if it already existed, the index is just
    /// found and returned (that of its last copy, when there are several). If it doesn't, it is inserted and the new index is returned.
    pub fn add_checked(&mut self, new_str: &str) -> (r: StringIdx)
        requires
            old(self).size_view() + encode_utf8(new_str@).len() + 1 <= u32::MAX,
        ensures
            old(self).size_matches() ==> final(self).size_matches(),
            final(self).index_view() == old(self).index_view(),
            (exists|i: int|
                0 <= i < old(self).strings_view().len() && old(self).strings_view()[i]
                    == new_str@) ==> {
                &&& final(self).strings_view() == old(self).strings_view()
                &&& final(self).size_view() == old(self).size_view()
                &&& exists|i: int|
                    0 <= i < old(self).strings_view().len() && old(self).strings_view()[i]
                        == new_str@ && r@ == i as u32 && forall|j: int|
                        i < j < old(self).strings_view().len() ==> old(self).strings_view()[j]
                            != new_str@
            },
            (forall|i: int|
                0 <= i < old(self).strings_view().len() ==> old(self).strings_view()[i]
                    != new_str@) ==> {
                &&& final(self).strings_view() == old(self).strings_view().push(new_str@)
                &&& final(self).size_view() == old(self).size_view() + encode_utf8(new_str@).len()
                    + 1
                &&& r@ == old(self).strings_view().len() as u32
            },
    {
        match self.position(new_str) {
            Some(i) => {
                proof {
                    broadcast use group_string_idx;
                }
                i
            },
            None => self.add(new_str),
        }
    }

    /// Unconditionally adds a string to this string table and returns the
    /// index of it
    pub fn add(&mut self, new_str: &str) -> (r: StringIdx)
        requires
            old(self).size_view() + encode_utf8(new_str@).len() + 1 <= u32::MAX,
        ensures
            old(self).size_matches() ==> final(self).size_matches(),
            final(self).index_view() == old(self).index_view(),
            final(self).strings_view() == old(self).strings_view().push(new_str@),
            final(self).size_view() == old(self).size_view() + encode_utf8(new_str@).len() + 1,
            r@ == old(self).strings_view().len() as u32,
    {
        proof {
            assert(old(self).strings_view().push(new_str@).drop_last() == old(self).strings_view());
        }
        proof {
            broadcast use group_string_idx;
        }
        let s = new_str.to_owned();
        let idx = self.contents.len();
        self.size = self.size + (new_str.len() + 1) as u32;
        self.contents.push(s);
        assert(self.strings_view() =~= old(self).strings_view().push(new_str@));
        StringIdx(idx as u32)
    }

    /// The size of this string table section in bytes
    pub fn size(&self) -> (r: u32)
        ensures
            r == self.size_view(),
    {
        self.size
    }

    /// The index of this section's section header
    pub fn section_index(&self) -> (r: SectionIdx)
        ensures
            r == self.index_view(),
    {
        self.section_index
    }

    /// Parses a StringTable using the provided buffer, its expected size, and the section's section index
    pub fn parse(source: &mut BufferIterator, size: u32, section_index: SectionIdx) -> (r: Result<
        Self,
        StringTableParseError,
    >)
        requires
            old(source).wf(),
        ensures
            final(source).wf(),
            final(source).data() == old(source).data(),
            ({
                let (res, q) = decode_strings(
                    old(source).data(),
                    old(source).pos(),
                    old(source).pos() + size,
                    0,
                );
                &&& final(source).pos() == q
                &&& match res {
                    Ok(ss) => r matches Ok(t) && t.strings_view() == ss && t.size_view() == size
                        && t.index_view() == section_index,
                    Err(None) => r matches Err(StringTableParseError::EOFError(at, s)) && at == q
                        && s == size,
                    Err(Some(n)) => r matches Err(StringTableParseError::InvalidUtf8Error(m, _))
                        && m == n,
                }
            }),
    {
        let ghost data = source.data();
        let ghost start = source.pos();
        let ghost end = start + size;
        let mut contents: Vec<String> = Vec::new();
        let mut read: u32 = 0;
        let mut failure: Option<StringTableParseError> = None;
        assert(contents@.map_values(|s: String| s@) =~= Seq::<Seq<char>>::empty());
        while read < size
            invariant_except_break
                failure is None,
                decode_strings(data, start, end, 0) == match decode_strings(
                    data,
                    source.pos(),
                    end,
                    contents@.len(),
                ) {
                    (Ok(ss), q) => (Ok(contents@.map_values(|s: String| s@) + ss), q),
                    (Err(e), q) => (Err::<Seq<Seq<char>>, Option<nat>>(e), q),
                },
                source.pos() == start + read,
                read <= size,
            invariant
                source.wf(),
                source.data() == data,
                end == start + size,
            ensures
                match failure {
                    None => decode_strings(data, start, end, 0) == (
                        Ok::<Seq<Seq<char>>, Option<nat>>(contents@.map_values(|s: String| s@)),
                        source.pos(),
                    ),
                    Some(StringTableParseError::EOFError(at, s)) => decode_strings(
                        data,
                        start,
                        end,
                        0,
                    ) == (Err::<Seq<Seq<char>>, Option<nat>>(None), source.pos()) && at
                        == source.pos() && s == size,
                    Some(StringTableParseError::InvalidUtf8Error(m, _)) => decode_strings(
                        data,
                        start,
                        end,
                        0,
                    ) == (Err::<Seq<Seq<char>>, Option<nat>>(Some(m as nat)), source.pos()),
                },
            decreases size - read,
        {
            let before = source.current_index();
            proof {
                lemma_read_cstr_advances(data, source.pos(), end);
            }
            let b = match read_string_bytes(source, size - read) {
                Some(b) => b,
                None => {
                    failure = Some(StringTableParseError::EOFError(source.current_index(), size));
                    break ;
                },
            };
            read = read + (source.current_index() - before) as u32;
            let n = contents.len();
            match string_from_utf8(b) {
                Ok(s) => {
                    let ghost prev = contents@.map_values(|s: String| s@);
                    contents.push(s);
                    proof {
                        assert(contents@.map_values(|s: String| s@) =~= prev.push(s@));
                        match decode_strings(data, source.pos(), end, contents@.len()) {
                            (Ok(ss), q) => {
                                assert(prev + (seq![s@] + ss) == prev.push(s@) + ss);
                            },
                            _ => {},
                        }
                    }
                },
                Err(e) => {
                    failure = Some(StringTableParseError::InvalidUtf8Error(n, e));
                    break ;
                },
            }
        }
        match failure {
            Some(e) => Err(e),
            None => Ok(Self { contents, section_index, size }),
        }
    }

    /// Writes the binary representation of this string table to the provided buffer: each
    /// string's bytes followed by a NUL byte
    pub fn write(&self, buf: &mut Vec<u8>)
        ensures
            self.size_matches() ==> final(buf)@.len() == old(buf)@.len() + self.size_view(),
            final(buf)@ == old(buf)@ + strtab_bytes(self.strings_view()),
    {
        proof {
            lemma_strtab_bytes_len(self.strings_view());
        }
        let ghost start = buf@;
        let ghost ss = self.strings_view();
        let mut i: usize = 0;
        while i < self.contents.len()
            invariant
                i <= self.contents@.len(),
                ss == self.strings_view(),
                buf@ == start + strtab_bytes(ss.take(i as int)),
            decreases self.contents@.len() - i,
        {
            proof {
                assert(ss.take(i + 1).drop_last() == ss.take(i as int));
                assert(ss[i as int] == self.contents@[i as int]@);
            }
            push_all(buf, self.contents[i].as_str().as_bytes());
            buf.push(0);
            i = i + 1;
        }
        assert(ss.take(ss.len() as int) == ss);
    }
}

/// Reading a string before `end` moves the reader forward, and not past `end`.
pub proof fn lemma_read_cstr_advances(data: Seq<u8>, pos: int, end: int)
    requires
        0 <= pos <= data.len(),
    ensures
        pos < end ==> read_cstr(data, pos, end).0 is Some ==> pos < read_cstr(data, pos, end).1,
        pos <= end ==> read_cstr(data, pos, end).1 <= end,
        read_cstr(data, pos, end).1 <= data.len() || read_cstr(data, pos, end).1 == pos,
    decreases end - pos,
{
    if pos < end && pos < data.len() && data[pos] != 0 {
        lemma_read_cstr_advances(data, pos + 1, end);
    }
}

/// Whether no string of `ss` holds a NUL char, which would end it early when it is read back.
pub open spec fn strings_without_nul(ss: Seq<Seq<char>>) -> bool {
    forall|i: int, j: int| 0 <= i < ss.len() && 0 <= j < ss[i].len() ==> #[trigger] ss[i][j] != '\0'
}

/// The UTF-8 bytes of a char other than NUL hold no zero byte.
proof fn lemma_scalar_without_zero(c: char)
    requires
        c != '\0',
    ensures
        forall|j: int| 0 <= j < encode_scalar(c as u32).len() ==> #[trigger] encode_scalar(
            c as u32,
        )[j] != 0,
{
    let u = c as u32;
    assert(u != 0);
    assert(u <= 0x7F ==> (u & 0x7F) as u8 != 0) by (bit_vector)
        requires
            u != 0,
    ;
    assert((0xC0u8 | ((u >> 6) & 0x1F) as u8) != 0) by (bit_vector);
    assert((0xE0u8 | ((u >> 12) & 0x0F) as u8) != 0) by (bit_vector);
    assert((0xF0u8 | ((u >> 18) & 0x7) as u8) != 0) by (bit_vector);
    assert((0x80u8 | (u & 0x3F) as u8) != 0) by (bit_vector);
    assert((0x80u8 | ((u >> 6) & 0x3F) as u8) != 0) by (bit_vector);
    assert((0x80u8 | ((u >> 12) & 0x3F) as u8) != 0) by (bit_vector);
}

/// The UTF-8 bytes of a string without NUL chars hold no zero byte.
pub proof fn lemma_utf8_without_zero(s: Seq<char>)
    requires
        forall|j: int| 0 <= j < s.len() ==> #[trigger] s[j] != '\0',
    ensures
        forall|j: int| 0 <= j < encode_utf8(s).len() ==> #[trigger] encode_utf8(s)[j] != 0,
    decreases s.len(),
{
    if s.len() > 0 {
        let head = encode_scalar(s[0] as u32);
        let rest = encode_utf8(s.drop_first());
        assert forall|j: int| 0 <= j < s.drop_first().len() implies #[trigger] s.drop_first()[j]
            != '\0' by {
            assert(s.drop_first()[j] == s[j + 1]);
        }
        lemma_utf8_without_zero(s.drop_first());
        lemma_scalar_without_zero(s[0]);
        assert(encode_utf8(s) == head + rest);
        assert forall|j: int| 0 <= j < encode_utf8(s).len() implies #[trigger] encode_utf8(s)[j]
            != 0 by {
            if j < head.len() {
                assert(encode_utf8(s)[j] == head[j]);
            } else {
                assert(encode_utf8(s)[j] == rest[j - head.len()]);
            }
        }
    }
}

/// Reading a string where bytes without a zero byte and then a NUL byte were written, with
/// the NUL before `end`, gives those bytes and moves past the NUL.
pub proof fn lemma_read_cstr_at(b: Seq<u8>, prefix: Seq<u8>, rest: Seq<u8>, end: int)
    requires
        forall|j: int| 0 <= j < b.len() ==> #[trigger] b[j] != 0,
        prefix.len() + b.len() < end,
    ensures
        read_cstr(prefix + b + seq![0u8] + rest, prefix.len() as int, end) == (
            Some(b),
            (prefix.len() + b.len() + 1) as int,
        ),
    decreases b.len(),
{
    let data = prefix + b + seq![0u8] + rest;
    let n = prefix.len() as int;
    if b.len() == 0 {
        assert(data[n] == 0);
        assert(b =~= Seq::<u8>::empty());
    } else {
        let tail = b.drop_first();
        assert forall|j: int| 0 <= j < tail.len() implies #[trigger] tail[j] != 0 by {
            assert(tail[j] == b[j + 1]);
        }
        assert(data =~= (prefix + seq![b[0]]) + tail + seq![0u8] + rest);
        lemma_read_cstr_at(tail, prefix + seq![b[0]], rest, end);
        assert(data[n] == b[0]);
        assert(seq![b[0]] + tail =~= b);
    }
}

/// The bytes and size of strings that start with `s` are those of `s` followed by those of
/// the rest.
pub proof fn lemma_strtab_prepend(s: Seq<char>, ss: Seq<Seq<char>>)
    ensures
        strtab_bytes(seq![s] + ss) == encode_utf8(s) + seq![0u8] + strtab_bytes(ss),
        strtab_size(seq![s] + ss) == encode_utf8(s).len() + 1 + strtab_size(ss),
    decreases ss.len(),
{
    let t = seq![s] + ss;
    if ss.len() == 0 {
        assert(t.drop_last() == Seq::<Seq<char>>::empty());
        assert(t.last() == s);
        assert(strtab_bytes(t.drop_last()) == Seq::<u8>::empty());
        assert(strtab_size(t.drop_last()) == 0);
        assert(strtab_bytes(ss) == Seq::<u8>::empty());
        assert(strtab_bytes(t) =~= encode_utf8(s) + seq![0u8] + strtab_bytes(ss));
    } else {
        lemma_strtab_prepend(s, ss.drop_last());
        assert(t.drop_last() == seq![s] + ss.drop_last());
        assert(t.last() == ss.last());
        let x = encode_utf8(s) + seq![0u8];
        let y = strtab_bytes(ss.drop_last());
        let z = encode_utf8(ss.last()) + seq![0u8];
        assert(strtab_bytes(t) =~= strtab_bytes(t.drop_last()) + z);
        assert(strtab_bytes(ss) =~= y + z);
        assert(x + y + z =~= x + (y + z));
    }
}

/// The bytes of a string table number its size.
pub proof fn lemma_strtab_bytes_len(ss: Seq<Seq<char>>)
    ensures
        strtab_bytes(ss).len() == strtab_size(ss),
    decreases ss.len(),
{
    if ss.len() > 0 {
        lemma_strtab_bytes_len(ss.drop_last());
    }
}

/// Writing strings without NUL chars as a string table and reading back as many bytes as the
/// table's size gives the same strings, whatever stands before and after.
pub proof fn strtab_round_trip(ss: Seq<Seq<char>>, prefix: Seq<u8>, rest: Seq<u8>, k: nat)
    requires
        strings_without_nul(ss),
    ensures
        decode_strings(
            prefix + strtab_bytes(ss) + rest,
            prefix.len() as int,
            (prefix.len() + strtab_size(ss)) as int,
            k,
        ) == (Ok::<Seq<Seq<char>>, Option<nat>>(ss), (prefix.len() + strtab_size(ss)) as int),
    decreases ss.len(),
{
    let data = prefix + strtab_bytes(ss) + rest;
    let n = prefix.len() as int;
    let end = (prefix.len() + strtab_size(ss)) as int;
    if ss.len() == 0 {
        assert(strtab_size(ss) == 0);
        assert(ss =~= Seq::<Seq<char>>::empty());
    } else {
        let s = ss[0];
        let tail = ss.drop_first();
        let b = encode_utf8(s);
        assert(ss == seq![s] + tail);
        lemma_strtab_prepend(s, tail);
        assert forall|i: int, j: int| 0 <= i < tail.len() && 0 <= j < tail[i].len() implies #[trigger] tail[i][j]
            != '\0' by {
            assert(tail[i] == ss[i + 1]);
        }
        assert forall|j: int| 0 <= j < s.len() implies #[trigger] s[j] != '\0' by {
            assert(ss[0][j] == s[j]);
        }
        lemma_utf8_without_zero(s);
        lemma_strtab_bytes_len(tail);
        assert(data =~= prefix + b + seq![0u8] + (strtab_bytes(tail) + rest));
        lemma_read_cstr_at(b, prefix, strtab_bytes(tail) + rest, end);
        encode_utf8_valid_utf8(s);
        encode_utf8_decode_utf8(s);
        assert(data =~= (prefix + b + seq![0u8]) + strtab_bytes(tail) + rest);
        strtab_round_trip(tail, prefix + b + seq![0u8], rest, k + 1);
    }
}

} // verus!
