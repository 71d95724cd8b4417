//! A module describing an argument section in a KSM file
use vstd::prelude::*;

use crate::buffer::{byte_at, BufferIterator};
use crate::errors::KOSValueParseError;
use crate::ksm::errors::ArgumentSectionParseError;
use crate::ksm::{
    decode_var_int, fewest_bytes, fewest_bytes_to_hold, int_size_of, read_var_int, var_int_bytes,
    width, write_var_int, IntSize,
};
use crate::primitives::{view_result, FromBytes, ToBytes};
use crate::value::{
    lemma_value_first_byte, lemma_values_prepend, value_bytes, value_round_trip, value_round_trips,
    decode_value, lemma_decode_value_progress, lemma_value_size, lemma_values_bytes_len,
    lemma_values_size_prefix, lemma_values_size_push, value_size, values_bytes, values_equal,
    values_size, KOSValue, KOSValueView,
};

verus! {

/// An error encountered when reading an argument section
#[derive(Debug, Copy, Clone, PartialEq, Eq, Structural)]
pub enum ArgSectionReadError {
    /// Reached end of file while attempting to parse argument section index
    ArgIndexUnexpectedEOF,
    /// Reached end of file while attempting to parse argument section header
    ArgSectionHeaderMissing,
}

/// Describes the number of bytes that are required to store a reference to an argument
/// in the argument section. It is the same as [IntSize].
pub type NumArgIndexBytes = IntSize;

/// A wrapper type that represents an index into the argument section of a KSM file.
///
/// This type implements From<usize> and usize implements From<ArgIndex>, but this is provided
/// so that it takes 1 extra step to convert raw integers into ArgIndexes which could stop potential
/// logical bugs.
///
/// This is a kOS-governed type that is an index into the *bytes* of an argument section.
#[derive(Debug, Copy, Clone, PartialEq, Eq, Hash, Structural)]
pub struct ArgIndex(usize);

impl View for ArgIndex {
    type V = usize;

    closed spec fn view(&self) -> usize {
        self.0
    }
}

/// The ArgIndex that holds `i`.
pub closed spec fn arg_index(i: usize) -> ArgIndex {
    ArgIndex(i)
}

/// A ArgIndex holds the number it was made from.
pub broadcast proof fn lemma_arg_index_view(i: usize)
    ensures
        #[trigger] arg_index(i)@ == i,
{
}

/// A ArgIndex is determined by the number it holds.
pub broadcast proof fn lemma_arg_index_ext(x: ArgIndex)
    ensures
        x == arg_index(#[trigger] x@),
{
}

/// What is known of every ArgIndex.
pub broadcast group group_arg_index {
    lemma_arg_index_view,
    lemma_arg_index_ext,
}

impl From<usize> for ArgIndex {
    fn from(i: usize) -> (r: Self) {
        Self(i)
    }
}

impl vstd::std_specs::convert::FromSpecImpl<usize> for ArgIndex {
    open spec fn obeys_from_spec() -> bool {
        true
    }

    open spec fn from_spec(i: usize) -> ArgIndex {
        arg_index(i)
    }
}

impl From<u8> for ArgIndex {
    fn from(i: u8) -> (r: Self) {
        Self(i as usize)
    }
}

impl vstd::std_specs::convert::FromSpecImpl<u8> for ArgIndex {
    open spec fn obeys_from_spec() -> bool {
        true
    }

    open spec fn from_spec(i: u8) -> ArgIndex {
        arg_index(i as usize)
    }
}

impl From<u16> for ArgIndex {
    fn from(i: u16) -> (r: Self) {
        Self(i as usize)
    }
}

impl vstd::std_specs::convert::FromSpecImpl<u16> for ArgIndex {
    open spec fn obeys_from_spec() -> bool {
        true
    }

    open spec fn from_spec(i: u16) -> ArgIndex {
        arg_index(i as usize)
    }
}

impl From<u32> for ArgIndex {
    fn from(i: u32) -> (r: Self) {
        Self(i as usize)
    }
}

impl vstd::std_specs::convert::FromSpecImpl<u32> for ArgIndex {
    open spec fn obeys_from_spec() -> bool {
        true
    }

    open spec fn from_spec(i: u32) -> ArgIndex {
        arg_index(i as usize)
    }
}

impl From<u64> for ArgIndex {
    fn from(i: u64) -> (r: Self) {
        Self(i as usize)
    }
}

impl vstd::std_specs::convert::FromSpecImpl<u64> for ArgIndex {
    open spec fn obeys_from_spec() -> bool {
        true
    }

    open spec fn from_spec(i: u64) -> ArgIndex {
        arg_index(i as usize)
    }
}

impl From<ArgIndex> for usize {
    fn from(x: ArgIndex) -> (r: Self) {
        x.0
    }
}

impl vstd::std_specs::convert::FromSpecImpl<ArgIndex> for usize {
    open spec fn obeys_from_spec() -> bool {
        true
    }

    open spec fn from_spec(x: ArgIndex) -> usize {
        x@
    }
}

/// What `ArgIndex::from_bytes` gives at `pos`: a big-endian index of the given width.
pub open spec fn decode_arg_index(data: Seq<u8>, pos: int, w: IntSize) -> (
    Result<ArgIndex, ArgSectionReadError>,
    int,
) {
    match decode_var_int(data, pos, w) {
        (Ok(v), p) => (Ok(arg_index(v as usize)), p),
        (Err(_), p) => (Err(ArgSectionReadError::ArgIndexUnexpectedEOF), p),
    }
}

impl ArgIndex {
    /// Tries to parse an ArgIndex from the byte source provided, and the NumArgIndexBytes
    /// from the argument section header.
    ///
    /// Returns either the ArgIndex, or an error, which can only happen if we ran out of bytes.
    pub fn from_bytes(source: &mut BufferIterator, num_index_bytes: NumArgIndexBytes) -> (r: Result<
        Self,
        ArgSectionReadError,
    >)
        requires
            old(source).wf(),
        ensures
            final(source).wf(),
            final(source).data() == old(source).data(),
            (r, final(source).pos()) == decode_arg_index(
                old(source).data(),
                old(source).pos(),
                num_index_bytes,
            ),
    {
        match read_var_int(source, num_index_bytes) {
            Ok(v) => Ok(ArgIndex(v as usize)),
            Err(_) => Err(ArgSectionReadError::ArgIndexUnexpectedEOF),
        }
    }

    /// Writes an ArgIndex into the provided buffer, using the NumArgIndexBytes, which
    /// is required to know how many bytes to use to write the index. Only the low bytes
    /// of the index that fit in that width are written.
    pub fn to_bytes(&self, buf: &mut Vec<u8>, num_index_bytes: NumArgIndexBytes)
        ensures
            final(buf)@ == old(buf)@ + var_int_bytes(self@ as u32, num_index_bytes),
    {
        write_var_int(self.0 as u32, buf, num_index_bytes);
    }
}

/// The byte offset at which the argument number `i` of `args` starts in a section: after the
/// 3 header bytes and the arguments before it.
pub open spec fn arg_offset(args: Seq<KOSValueView>, i: int) -> nat {
    3 + values_size(args.take(i))
}

/// The index width a section takes after it was read with the width `w` in its header and
/// the arguments `args`: adding an argument recomputes the width from the section's size.
pub open spec fn parsed_index_bytes(w: IntSize, args: Seq<KOSValueView>) -> IntSize {
    if args.len() > 0 {
        fewest_bytes((3 + values_size(args)) as int)
    } else {
        w
    }
}

/// The bytes an argument section is written as: `%A`, the index width, then every argument.
pub open spec fn arg_section_bytes(w: IntSize, args: Seq<KOSValueView>) -> Seq<u8> {
    seq![0x25u8, 0x41u8, width(w)] + values_bytes(args)
}

/// An argument section is written as `%A`, its index width in bytes, then its values.
pub proof fn arg_section_starts_with_marker(w: IntSize, args: Seq<KOSValueView>)
    ensures
        arg_section_bytes(w, args).take(3) == seq!['%' as u8, 'A' as u8, width(w)],
{
    assert(arg_section_bytes(w, args).take(3) =~= seq!['%' as u8, 'A' as u8, width(w)]);
}

/// Reads argument values from `pos` until a `%` stands where the next value would begin.
pub open spec fn decode_arg_values(data: Seq<u8>, pos: int) -> (
    Result<Seq<KOSValueView>, ArgumentSectionParseError>,
    int,
)
    decreases data.len() - pos,
{
    match byte_at(data, pos) {
        None => (Err(ArgumentSectionParseError::EOF), pos),
        Some(b) => if b == 0x25 {
            (Ok(seq![]), pos)
        } else {
            match decode_value(data, pos) {
                (Err(e), p) => (Err(ArgumentSectionParseError::KOSValueParseError(p as usize, e)), p),
                (Ok(v), p) => if p <= pos {
                    (Err(ArgumentSectionParseError::EOF), p)
                } else {
                    match decode_arg_values(data, p) {
                        (Ok(vs), q) => (Ok(seq![v] + vs), q),
                        (Err(e), q) => (Err(e), q),
                    }
                },
            }
        },
    }
}

/// What `ArgumentSection::parse` reads at `pos`: the header's index width and the arguments.
pub open spec fn decode_arg_section(data: Seq<u8>, pos: int) -> (
    Result<(IntSize, Seq<KOSValueView>), ArgumentSectionParseError>,
    int,
) {
    match <u16 as FromBytes>::decode(data, pos) {
        (Err(_), p) => (Err(ArgumentSectionParseError::MissingHeader), p),
        (Ok(h), p) => if h != 0x4125 {
            (Err(ArgumentSectionParseError::InvalidHeader(h)), p)
        } else {
            match byte_at(data, p) {
                None => (Err(ArgumentSectionParseError::MissingNumArgIndexBytes), p),
                Some(raw) => match int_size_of(raw) {
                    None => (Err(ArgumentSectionParseError::InvalidNumArgIndexBytes(raw)), p + 1),
                    Some(w) => match decode_arg_values(data, p + 1) {
                        (Ok(vs), q) => (Ok((w, vs)), q),
                        (Err(e), q) => (Err(e), q),
                    },
                },
            }
        },
    }
}

/// An argument section within a KSM file.
///
/// You can create a new ArgumentSection using new() and then add items using add().
///
/// This section stores all operands of every
/// instruction contained within the code sections of a KSM file, which all index into the
/// file's argument section.
#[derive(Debug)]
pub struct ArgumentSection {
    num_index_bytes: NumArgIndexBytes,
    arguments: Vec<KOSValue>,
    // The ArgIndex (byte offset) of each argument, in the same order as the arguments
    offsets: Vec<usize>,
    size_bytes: usize,
}

impl ArgumentSection {
    /// The arguments of this section, in order.
    pub closed spec fn arguments_view(&self) -> Seq<KOSValueView> {
        self.arguments@.map_values(|v: KOSValue| v@)
    }

    /// The number of bytes that an index into this section is written with.
    pub closed spec fn index_bytes(&self) -> IntSize {
        self.num_index_bytes
    }

    /// The ArgIndex of each argument, in order.
    pub closed spec fn offsets_view(&self) -> Seq<usize> {
        self.offsets@
    }

    /// The size in bytes that the section keeps count of.
    pub closed spec fn stored_size(&self) -> usize {
        self.size_bytes
    }

    /// The section's bookkeeping agrees with its arguments: each argument's index is the
    /// offset at which it starts, the size counts the header and every argument, and once
    /// an argument has been added the index width is the one its size needs.
    pub open spec fn wf(&self) -> bool {
        &&& self.offsets_view().len() == self.arguments_view().len()
        &&& forall|i: int|
            0 <= i < self.offsets_view().len() ==> #[trigger] self.offsets_view()[i] == arg_offset(
                self.arguments_view(),
                i,
            )
        &&& self.stored_size() == 3 + values_size(self.arguments_view())
        &&& self.arguments_view().len() > 0 ==> self.index_bytes() == fewest_bytes(
            self.stored_size() as int,
        )
    }

    /// Creates a new empty ArgumentSection
    pub fn new() -> (r: Self)
        ensures
            r.wf(),
            r.arguments_view() == Seq::<KOSValueView>::empty(),
            r.index_bytes() == IntSize::One,
    {
        let r = Self {
            num_index_bytes: IntSize::One,
            arguments: Vec::new(),
            offsets: Vec::new(),
            size_bytes: 3,
        };
        assert(r.arguments_view() =~= Seq::<KOSValueView>::empty());
        r
    }

    /// Creates a new empty ArgumentSection, with the provided pre-allocated size
    pub fn with_capacity(amount: usize) -> (r: Self)
        ensures
            r.wf(),
            r.arguments_view() == Seq::<KOSValueView>::empty(),
            r.index_bytes() == IntSize::One,
    {
        let r = Self {
            num_index_bytes: IntSize::One,
            arguments: Vec::with_capacity(amount),
            offsets: Vec::with_capacity(amount),
            size_bytes: 3,
        };
        assert(r.arguments_view() =~= Seq::<KOSValueView>::empty());
        r
    }

    /// Returns the NumArgIndexBytes that this argument section currently requires.
    ///
    /// This represents the current size range of this argument section, because this is the number
    /// of bytes that are required to reference an item within the argument section.
    pub fn num_index_bytes(&self) -> (r: NumArgIndexBytes)
        ensures
            r == self.index_bytes(),
    {
        self.num_index_bytes
    }

    /// Returns the ArgIndex into this argument section that a KOSValue resides at, or None
    /// if no such value is in this section. When the value was added more than once, the
    /// index of the last one is returned.
    pub fn find(&self, value: &KOSValue) -> (r: Option<ArgIndex>)
        requires
            self.wf(),
        ensures
            r is None ==> forall|i: int|
                0 <= i < self.arguments_view().len() ==> self.arguments_view()[i] != value@,
            r matches Some(idx) ==> exists|i: int|
                0 <= i < self.arguments_view().len() && self.arguments_view()[i] == value@
                    && idx@ == arg_offset(self.arguments_view(), i) && forall|j: int|
                    i < j < self.arguments_view().len() ==> self.arguments_view()[j] != value@,
    {
        let mut i = self.arguments.len();
        while i > 0
            invariant
                i <= self.arguments@.len(),
                self.wf(),
                forall|j: int|
                    i <= j < self.arguments_view().len() ==> self.arguments_view()[j] != value@,
            decreases i,
        {
            i = i - 1;
            if values_equal(&self.arguments[i], value) {
                proof {
                    broadcast use group_arg_index;
                    assert(self.arguments_view()[i as int] == self.arguments@[i as int]@);
                }
                return Some(ArgIndex(self.offsets[i]));
            }
            assert(self.arguments_view()[i as int] == self.arguments@[i as int]@);
        }
        None
    }

    /// Add a new KOSValue to this argument section, checking if it is a duplicate, and
    /// returning the ArgIndex of the value. If it already exists, the ArgIndex of that value is
    /// returned, if it does not, then it is added, and the new ArgIndex is returned.
    pub fn add_checked(&mut self, value: KOSValue) -> (r: ArgIndex)
        requires
            old(self).wf(),
            old(self).stored_size() + value_size(value@) <= usize::MAX,
        ensures
            final(self).wf(),
            (exists|i: int|
                0 <= i < old(self).arguments_view().len() && old(self).arguments_view()[i]
                    == value@) ==> {
                &&& final(self).arguments_view() == old(self).arguments_view()
                &&& final(self).index_bytes() == old(self).index_bytes()
                &&& exists|i: int|
                    0 <= i < old(self).arguments_view().len() && old(self).arguments_view()[i]
                        == value@ && r@ == arg_offset(old(self).arguments_view(), i) && forall|
                        j: int,
                    |
                        i < j < old(self).arguments_view().len() ==> old(self).arguments_view()[j]
                            != value@
            },
            (forall|i: int|
                0 <= i < old(self).arguments_view().len() ==> old(self).arguments_view()[i]
                    != value@) ==> {
                &&& final(self).arguments_view() == old(self).arguments_view().push(value@)
                &&& r@ == old(self).stored_size()
                &&& final(self).index_bytes() == fewest_bytes(final(self).stored_size() as int)
            },
    {
        match self.find(&value) {
            Some(index) => index,
            None => self.add(value),
        }
    }

    /// Adds a new KOSValue to this argument section.
    ///
    /// This does not do any sort of checking for duplication and will simply add it.
    ///
    /// This function returns the ArgIndex that can be used to refer to the inserted value,
    /// for example when trying to reference it in an instruction.
    pub fn add(&mut self, argument: KOSValue) -> (r: ArgIndex)
        requires
            old(self).wf(),
            old(self).stored_size() + value_size(argument@) <= usize::MAX,
        ensures
            final(self).wf(),
            final(self).arguments_view() == old(self).arguments_view().push(argument@),
            r@ == old(self).stored_size(),
            r@ == arg_offset(old(self).arguments_view(), old(self).arguments_view().len() as int),
            final(self).stored_size() == old(self).stored_size() + value_size(argument@),
            final(self).index_bytes() == fewest_bytes(final(self).stored_size() as int),
    {
        let ghost old_args = self.arguments_view();
        proof {
            broadcast use group_arg_index;
            assert(old_args.take(old_args.len() as int) == old_args);
            lemma_values_size_push(old_args, argument@);
        }
        let size = argument.size_bytes();
        let arg_index = ArgIndex(self.size_bytes);
        self.arguments.push(argument);
        self.offsets.push(self.size_bytes);
        self.size_bytes = self.size_bytes + size;
        self.recalculate_index_bytes();
        proof {
            let args = self.arguments_view();
            assert(args =~= old_args.push(argument@));
            assert forall|i: int| 0 <= i < self.offsets_view().len() implies #[trigger] self.offsets_view()[i]
                == arg_offset(args, i) by {
                if i < old_args.len() {
                    assert(args.take(i) == old_args.take(i));
                } else {
                    assert(args.take(i) == old_args);
                }
            }
        }
        arg_index
    }

    /// Gets a reference to a particular KOSValue in this argument section.
    ///
    /// This is done using the ArgIndex that is returned when the value was added.
    ///
    /// Returns None of the ArgIndex doesn't refer to a valid value.
    pub fn get(&self, index: ArgIndex) -> (r: Option<&KOSValue>)
        requires
            self.wf(),
        ensures
            r is None ==> forall|i: int|
                0 <= i < self.arguments_view().len() ==> arg_offset(self.arguments_view(), i)
                    != index@,
            r matches Some(v) ==> exists|i: int|
                0 <= i < self.arguments_view().len() && arg_offset(self.arguments_view(), i)
                    == index@ && v@ == self.arguments_view()[i],
    {
        let mut i: usize = 0;
        while i < self.offsets.len()
            invariant
                i <= self.offsets@.len(),
                self.wf(),
                forall|j: int| 0 <= j < i ==> arg_offset(self.arguments_view(), j) != index@,
            decreases self.offsets@.len() - i,
        {
            assert(self.offsets_view()[i as int] == arg_offset(self.arguments_view(), i as int));
            if self.offsets[i] == index.0 {
                proof {
                    broadcast use group_arg_index;
                }
                assert(self.arguments_view()[i as int] == self.arguments@[i as int]@);
                return Some(&self.arguments[i]);
            }
            i = i + 1;
        }
        proof {
            broadcast use group_arg_index;
        }
        None
    }

    /// Returns an iterator over all of the KOSValues that are stored in this section.
    pub fn arguments(&self) -> (r: std::slice::Iter<'_, KOSValue>)
        ensures
            vstd::std_specs::slice::into_iter_elts(r).map_values(|v: KOSValue| v@)
                == self.arguments_view(),
    {
        self.arguments.as_slice().iter()
    }

    /// Returns the size in bytes that this section would take up in total in the final binary file.
    pub fn size_bytes(&self) -> (r: usize)
        requires
            self.wf(),
        ensures
            r == 3 + values_size(self.arguments_view()),
    {
        self.size_bytes
    }

    // Recalculates the number of bytes required to reference any value within this section.
    fn recalculate_index_bytes(&mut self)
        ensures
            final(self).arguments@ == old(self).arguments@,
            final(self).offsets@ == old(self).offsets@,
            final(self).size_bytes == old(self).size_bytes,
            final(self).num_index_bytes == fewest_bytes(old(self).size_bytes as int),
    {
        self.num_index_bytes = if self.size_bytes <= 0xff {
            IntSize::One
        } else if self.size_bytes <= 0xffff {
            IntSize::Two
        } else if self.size_bytes <= 0xffffff {
            // fits in 24 unsigned bits
            IntSize::Three
        } else {
            IntSize::Four
        };
    }

    /// Appends the binary representation of this section to the buffer: `%A`, the number of
    /// index bytes, then every argument.
    pub fn write(&self, buf: &mut Vec<u8>)
        ensures
            final(buf)@ == old(buf)@ + arg_section_bytes(self.index_bytes(), self.arguments_view()),
            final(buf)@.len() == old(buf)@.len() + 3 + values_size(self.arguments_view()),
    {
        proof {
            arg_section_size(self.index_bytes(), self.arguments_view());
        }
        let ghost start = buf@;
        buf.push(0x25);
        buf.push(0x41);
        buf.push(u8::from(self.num_index_bytes));
        let ghost head = buf@;
        let mut i: usize = 0;
        while i < self.arguments.len()
            invariant
                i <= self.arguments@.len(),
                buf@ == head + values_bytes(self.arguments_view().take(i as int)),
                head == start + seq![0x25u8, 0x41u8, width(self.num_index_bytes)],
            decreases self.arguments@.len() - i,
        {
            let ghost before = buf@;
            self.arguments[i].to_bytes(buf);
            proof {
                let args = self.arguments_view();
                assert(args.take(i + 1) == args.take(i as int).push(args[i as int]));
                assert(args[i as int] == self.arguments@[i as int]@);
                crate::value::lemma_values_size_push(args.take(i as int), args[i as int]);
            }
            i = i + 1;
        }
        assert(self.arguments_view().take(self.arguments@.len() as int) == self.arguments_view());
    }

    /// Parses an argument section: `%A`, the number of index bytes, then values until a
    /// `%` stands where the next value would begin.
    pub fn parse(source: &mut BufferIterator) -> (r: Result<Self, ArgumentSectionParseError>)
        requires
            old(source).wf(),
            old(source).data().len() <= isize::MAX,
        ensures
            final(source).wf(),
            final(source).data() == old(source).data(),
            final(source).pos() == decode_arg_section(old(source).data(), old(source).pos()).1,
            match decode_arg_section(old(source).data(), old(source).pos()).0 {
                Ok((w, vs)) => r matches Ok(sec) && sec.wf() && sec.arguments_view() == vs
                    && sec.index_bytes() == parsed_index_bytes(w, vs),
                Err(e) => r == Err::<Self, ArgumentSectionParseError>(e),
            },
    {
        let ghost orig_data = source.data();
        let ghost orig_pos = source.pos();
        let header = match u16::from_bytes(source) {
            Ok(h) => h,
            Err(_) => {
                return Err(ArgumentSectionParseError::MissingHeader);
            },
        };
        // %A in hex, little-endian
        if header != 0x4125 {
            return Err(ArgumentSectionParseError::InvalidHeader(header));
        }
        let raw_num_index_bytes = match source.next() {
            Some(b) => b,
            None => {
                return Err(ArgumentSectionParseError::MissingNumArgIndexBytes);
            },
        };
        let num_index_bytes = match IntSize::try_from(raw_num_index_bytes) {
            Ok(w) => w,
            Err(_) => {
                return Err(ArgumentSectionParseError::InvalidNumArgIndexBytes(raw_num_index_bytes));
            },
        };
        let mut arg_section = ArgumentSection {
            num_index_bytes,
            arguments: Vec::new(),
            offsets: Vec::new(),
            size_bytes: 3,
        };
        let ghost data = source.data();
        let ghost start = source.pos();
        assert(arg_section.arguments_view() =~= Seq::<KOSValueView>::empty());
        assert(seq![] + Seq::<KOSValueView>::empty() == Seq::<KOSValueView>::empty());
        let mut failure: Option<ArgumentSectionParseError> = None;
        loop
            invariant_except_break
                failure is None,
                decode_arg_values(data, start) == match decode_arg_values(data, source.pos()) {
                    (Ok(vs), q) => (Ok(arg_section.arguments_view() + vs), q),
                    (Err(e), q) => (Err::<Seq<KOSValueView>, ArgumentSectionParseError>(e), q),
                },
            invariant
                source.wf(),
                source.data() == data,
                data == orig_data,
                3 <= start <= source.pos(),
                data.len() <= isize::MAX,
                decode_arg_section(data, orig_pos) == match decode_arg_values(data, start) {
                    (Ok(vs), q) => (Ok((num_index_bytes, vs)), q),
                    (Err(e), q) => (Err::<(IntSize, Seq<KOSValueView>), ArgumentSectionParseError>(e), q),
                },
                arg_section.wf(),
                arg_section.stored_size() <= 3 + 2 * (source.pos() - start),
                arg_section.arguments_view().len() == 0 ==> arg_section.index_bytes()
                    == num_index_bytes,
            ensures
                match failure {
                    Some(e) => decode_arg_values(data, start) == (
                        Err::<Seq<KOSValueView>, ArgumentSectionParseError>(e),
                        source.pos(),
                    ),
                    None => decode_arg_values(data, start) == (
                        Ok::<Seq<KOSValueView>, ArgumentSectionParseError>(arg_section.arguments_view()),
                        source.pos(),
                    ),
                },
            decreases data.len() - source.pos(),
        {
            let ghost here = source.pos();
            match source.peek() {
                Some(next) => {
                    if next == 0x25 {
                        assert(arg_section.arguments_view() + Seq::<KOSValueView>::empty()
                            == arg_section.arguments_view());
                        break ;
                    }
                    proof {
                        lemma_decode_value_progress(data, here);
                    }
                    match KOSValue::from_bytes(source) {
                        Ok(argument) => {
                            let ghost before = arg_section.arguments_view();
                            assert(decode_value(data, here).0 == Ok::<KOSValueView, KOSValueParseError>(argument@));
                            assert(decode_value(data, here).1 == source.pos());
                            assert(value_size(argument@) <= 2 * (source.pos() - here));
                            assert(source.pos() <= data.len());
                            assert(arg_section.stored_size() <= 3 + 2 * (here - start));
                            assert(2 * (data.len() as int) - 3 <= usize::MAX) by {
                                assert(data.len() <= isize::MAX);
                                assert(usize::MAX == 2 * isize::MAX + 1);
                            }
                            arg_section.add(argument);
                            proof {
                                match decode_arg_values(data, source.pos()) {
                                    (Ok(vs), q) => {
                                        assert(before + (seq![argument@] + vs) == before.push(
                                            argument@,
                                        ) + vs);
                                    },
                                    _ => {},
                                }
                            }
                        },
                        Err(e) => {
                            failure = Some(
                                ArgumentSectionParseError::KOSValueParseError(
                                    source.current_index(),
                                    e,
                                ),
                            );
                            break ;
                        },
                    }
                },
                None => {
                    failure = Some(ArgumentSectionParseError::EOF);
                    break ;
                },
            }
        }
        match failure {
            Some(e) => Err(e),
            None => Ok(arg_section),
        }
    }
}

/// Reading argument values where a value other than a `%` stands: that value, then the
/// values read after it.
proof fn lemma_arg_values_cons(
    data: Seq<u8>,
    n: int,
    v: KOSValueView,
    tail: Seq<KOSValueView>,
    q: int,
)
    requires
        0 <= n < data.len(),
        data[n] != 0x25,
        value_size(v) > 0,
        decode_value(data, n) == (Ok::<KOSValueView, KOSValueParseError>(v), n + value_size(v)),
        decode_arg_values(data, n + value_size(v)) == (
            Ok::<Seq<KOSValueView>, ArgumentSectionParseError>(tail),
            q,
        ),
    ensures
        decode_arg_values(data, n) == (
            Ok::<Seq<KOSValueView>, ArgumentSectionParseError>(seq![v] + tail),
            q,
        ),
{
}

/// Writing argument values that each read back as themselves, with a `%` after them, and
/// reading them back gives the same values, and the reader stops at the `%`.
pub proof fn arg_values_round_trip(vs: Seq<KOSValueView>, prefix: Seq<u8>, rest: Seq<u8>)
    requires
        forall|i: int| 0 <= i < vs.len() ==> value_round_trips(#[trigger] vs[i]),
        rest.len() > 0,
        rest[0] == 0x25,
    ensures
        decode_arg_values(prefix + values_bytes(vs) + rest, prefix.len() as int) == (
            Ok::<Seq<KOSValueView>, ArgumentSectionParseError>(vs),
            (prefix.len() + values_size(vs)) as int,
        ),
    decreases vs.len(),
{
    let data = prefix + values_bytes(vs) + rest;
    let n = prefix.len() as int;
    if vs.len() == 0 {
        assert(values_bytes(vs) == Seq::<u8>::empty());
        assert(data == prefix + rest);
        assert(data[n] == rest[0]);
        assert(vs =~= Seq::<KOSValueView>::empty());
        assert(values_size(vs) == 0);
    } else {
        let v = vs[0];
        let tail = vs.drop_first();
        let vb = value_bytes(v);
        assert(vs == seq![v] + tail);
        lemma_values_prepend(v, tail);
        assert forall|i: int| 0 <= i < tail.len() implies value_round_trips(#[trigger] tail[i]) by {
            assert(tail[i] == vs[i + 1]);
        }
        assert(value_round_trips(vs[0]));
        lemma_value_first_byte(v);
        lemma_value_size(v);
        assert(data =~= prefix + vb + (values_bytes(tail) + rest));
        value_round_trip(v, prefix, values_bytes(tail) + rest);
        assert(data =~= (prefix + vb) + values_bytes(tail) + rest);
        arg_values_round_trip(tail, prefix + vb, rest);
        assert(data[n] == vb[0]);
        assert(values_size(vs) == value_size(v) + values_size(tail));
        lemma_arg_values_cons(data, n, v, tail, n + values_size(vs));
    }
}

/// Writing an argument section and reading it back gives its index width and its values,
/// and the reader stops at the `%` that follows it: this holds when every value reads back as
/// itself.
pub proof fn arg_section_round_trip(
    w: IntSize,
    vs: Seq<KOSValueView>,
    prefix: Seq<u8>,
    rest: Seq<u8>,
)
    requires
        forall|i: int| 0 <= i < vs.len() ==> value_round_trips(#[trigger] vs[i]),
        rest.len() > 0,
        rest[0] == 0x25,
    ensures
        decode_arg_section(prefix + arg_section_bytes(w, vs) + rest, prefix.len() as int) == (
            Ok::<(IntSize, Seq<KOSValueView>), ArgumentSectionParseError>((w, vs)),
            (prefix.len() + 3 + values_size(vs)) as int,
        ),
{
    let data = prefix + arg_section_bytes(w, vs) + rest;
    let n = prefix.len() as int;
    let head = seq![0x25u8, 0x41u8, width(w)];
    assert(data == prefix + head + values_bytes(vs) + rest);
    assert(data.subrange(n, n + 2) == seq![0x25u8, 0x41u8]);
    assert(data[n + 2] == width(w));
    arg_values_round_trip(vs, prefix + head, rest);
}

/// A successful read of argument values stops where a `%` stands.
pub proof fn lemma_arg_values_end(data: Seq<u8>, pos: int)
    ensures
        decode_arg_values(data, pos).0 is Ok ==> byte_at(data, decode_arg_values(data, pos).1)
            == Some(0x25u8),
    decreases data.len() - pos,
{
    if let Some(b) = byte_at(data, pos) {
        if b != 0x25 {
            if let (Ok(_), p) = decode_value(data, pos) {
                if p > pos {
                    lemma_arg_values_end(data, p);
                }
            }
        }
    }
}

/// A successful read of an argument section stops where a `%` stands.
pub proof fn lemma_arg_section_end(data: Seq<u8>, pos: int)
    ensures
        decode_arg_section(data, pos).0 is Ok ==> byte_at(data, decode_arg_section(data, pos).1)
            == Some(0x25u8),
{
    if let (Ok(_), p) = <u16 as FromBytes>::decode(data, pos) {
        lemma_arg_values_end(data, p + 1);
    }
}

/// The size of an argument section, as `ArgumentSection::size_bytes` counts it, is the
/// number of bytes `ArgumentSection::write` writes.
pub proof fn arg_section_size(w: IntSize, vs: Seq<KOSValueView>)
    ensures
        arg_section_bytes(w, vs).len() == 3 + values_size(vs),
{
    lemma_values_bytes_len(vs);
}

} // verus!
