//! Conversion of primitive values to and from their little-endian byte representations,
//! through the `ToBytes` and `FromBytes` traits.
use vstd::prelude::*;

use vstd::utf8::encode_utf8;

use crate::buffer::{byte_at, has_bytes, BufferIterator};

verus! {

/// The little-endian bytes of a `u16`.
pub open spec fn le_u16(x: u16) -> Seq<u8> {
    seq![(x % 256) as u8, (x / 256) as u8]
}

/// The little-endian bytes of a `u32`.
pub open spec fn le_u32(x: u32) -> Seq<u8> {
    seq![
        (x % 256) as u8,
        ((x / 0x100) % 256) as u8,
        ((x / 0x10000) % 256) as u8,
        (x / 0x1000000) as u8,
    ]
}

/// The little-endian bytes of a `u64`.
pub open spec fn le_u64(x: u64) -> Seq<u8> {
    le_u32((x % 0x1_0000_0000) as u32) + le_u32((x / 0x1_0000_0000) as u32)
}

/// The `u16` whose little-endian bytes are the first two of `b`.
pub open spec fn u16_from_le(b: Seq<u8>) -> u16 {
    (b[0] + 256 * b[1]) as u16
}

/// The `u32` whose little-endian bytes are the first four of `b`.
pub open spec fn u32_from_le(b: Seq<u8>) -> u32 {
    (b[0] + 0x100 * b[1] + 0x10000 * b[2] + 0x1000000 * b[3]) as u32
}

/// The `u64` whose little-endian bytes are the first eight of `b`.
pub open spec fn u64_from_le(b: Seq<u8>) -> u64 {
    (u32_from_le(b) + 0x1_0000_0000 * u32_from_le(b.subrange(4, 8))) as u64
}

/// Reads a fixed number of bytes: on success the bytes and the position after them,
/// on failure (too few bytes left) the position at the end of the buffer.
pub open spec fn take_spec(data: Seq<u8>, pos: int, n: int) -> (Option<Seq<u8>>, int) {
    if has_bytes(data, pos, n) {
        (Some(data.subrange(pos, pos + n)), pos + n)
    } else {
        (None, data.len() as int)
    }
}

/// The chars that the bytes `b` stand for, one char per byte (the Latin-1 reading).
pub open spec fn latin1(b: Seq<u8>) -> Seq<char> {
    b.map_values(|x: u8| x as char)
}

/// Allows a type to be converted to bytes and appended to a Vec<u8>
pub trait ToBytes {
    /// The bytes that this value is written as.
    spec fn encoding(&self) -> Seq<u8>;

    /// Converts a type into bytes and appends it to the buffer.
    fn to_bytes(&self, buf: &mut Vec<u8>)
        ensures
            final(buf)@ == old(buf)@ + self.encoding(),
    ;
}

/// A parse result, with the parsed value taken by its view.
pub open spec fn view_result<T: View, E>(r: Result<T, E>) -> Result<T::V, E> {
    match r {
        Ok(v) => Ok(v@),
        Err(e) => Err(e),
    }
}

/// Allows a type to be converted from bytes from a BufferIterator to itself.
pub trait FromBytes: Sized + View {
    /// The error type returned when the conversion fails
    type Error;

    /// What parsing a value out of `data` at position `pos` gives (the value taken by its
    /// view), with the position that the iterator is left at.
    spec fn decode(data: Seq<u8>, pos: int) -> (Result<Self::V, Self::Error>, int);

    /// Parses a value from the buffer iterator.
    fn from_bytes(source: &mut BufferIterator) -> (r: Result<Self, Self::Error>)
        requires
            old(source).wf(),
        ensures
            final(source).wf(),
            final(source).data() == old(source).data(),
            (view_result(r), final(source).pos()) == Self::decode(old(source).data(), old(source).pos()),
    ;
}

/// Reads `n` bytes from the iterator, or all that is left when fewer than `n` remain.
pub fn take_bytes(source: &mut BufferIterator, n: usize) -> (r: Option<Vec<u8>>)
    requires
        old(source).wf(),
    ensures
        final(source).wf(),
        final(source).data() == old(source).data(),
        (match r {
            Some(v) => Some(v@),
            None => None,
        }, final(source).pos()) == take_spec(old(source).data(), old(source).pos(), n as int),
{
    let ghost data = source.data();
    let ghost start = source.pos();
    let avail = source.len() - source.current_index();
    if avail < n {
        skip_to_end(source);
        return None;
    }
    let mut v: Vec<u8> = Vec::with_capacity(n);
    let mut i: usize = 0;
    while i < n
        invariant
            source.data() == data,
            source.wf(),
            i <= n,
            0 <= start,
            start + n <= data.len(),
            source.pos() == start + i,
            v@ == data.subrange(start, start + i),
        decreases n - i,
    {
        let b = source.next().unwrap();
        v.push(b);
        i = i + 1;
        assert(v@ == data.subrange(start, start + i));
    }
    Some(v)
}

/// Consumes every byte left in the iterator.
pub fn skip_to_end(source: &mut BufferIterator)
    requires
        old(source).wf(),
    ensures
        final(source).wf(),
        final(source).data() == old(source).data(),
        final(source).pos() == old(source).data().len(),
{
    while source.next().is_some()
        invariant
            source.wf(),
            source.data() == old(source).data(),
        decreases source.data().len() - source.pos(),
    {
    }
}

/// Appends all bytes of `bytes` to `buf`.
pub fn push_all(buf: &mut Vec<u8>, bytes: &[u8])
    ensures
        final(buf)@ == old(buf)@ + bytes@,
{
    let ghost start = buf@;
    let mut i: usize = 0;
    while i < bytes.len()
        invariant
            i <= bytes@.len(),
            buf@ == start + bytes@.subrange(0, i as int),
        decreases bytes@.len() - i,
    {
        buf.push(bytes[i]);
        i = i + 1;
        assert(buf@ == start + bytes@.subrange(0, i as int));
    }
    assert(bytes@.subrange(0, bytes@.len() as int) == bytes@);
}

/// Appends the little-endian bytes of `x` to `buf`.
pub fn write_u16_le(x: u16, buf: &mut Vec<u8>)
    ensures
        final(buf)@ == old(buf)@ + le_u16(x),
{
    buf.push((x % 256) as u8);
    buf.push((x / 256) as u8);
}

/// Appends the little-endian bytes of `x` to `buf`.
pub fn write_u32_le(x: u32, buf: &mut Vec<u8>)
    ensures
        final(buf)@ == old(buf)@ + le_u32(x),
{
    buf.push((x % 256) as u8);
    buf.push(((x / 0x100) % 256) as u8);
    buf.push(((x / 0x10000) % 256) as u8);
    buf.push((x / 0x1000000) as u8);
}

/// Appends the little-endian bytes of `x` to `buf`.
pub fn write_u64_le(x: u64, buf: &mut Vec<u8>)
    ensures
        final(buf)@ == old(buf)@ + le_u64(x),
{
    write_u32_le((x % 0x1_0000_0000) as u32, buf);
    write_u32_le((x / 0x1_0000_0000) as u32, buf);
}

/// Reads a little-endian `u16`, or fails with every remaining byte consumed.
pub fn read_u16_le(source: &mut BufferIterator) -> (r: Result<u16, ()>)
    requires
        old(source).wf(),
    ensures
        final(source).wf(),
        final(source).data() == old(source).data(),
        (r, final(source).pos()) == <u16 as FromBytes>::decode(old(source).data(), old(source).pos()),
{
    match take_bytes(source, 2) {
        Some(b) => Ok((b[0] as u16) + 256 * (b[1] as u16)),
        None => Err(()),
    }
}

/// Reads a little-endian `u32`, or fails with every remaining byte consumed.
pub fn read_u32_le(source: &mut BufferIterator) -> (r: Result<u32, ()>)
    requires
        old(source).wf(),
    ensures
        final(source).wf(),
        final(source).data() == old(source).data(),
        (r, final(source).pos()) == <u32 as FromBytes>::decode(old(source).data(), old(source).pos()),
{
    match take_bytes(source, 4) {
        Some(b) => Ok((b[0] as u32) + 0x100 * (b[1] as u32) + 0x10000 * (b[2] as u32) + 0x1000000 * (
        b[3] as u32)),
        None => Err(()),
    }
}

/// What reading a little-endian `u64` at `pos` gives.
pub open spec fn decode_u64(data: Seq<u8>, pos: int) -> (Result<u64, ()>, int) {
    match take_spec(data, pos, 8) {
        (Some(b), p) => (Ok(u64_from_le(b)), p),
        (None, p) => (Err(()), p),
    }
}

/// Reads a little-endian `u64`, or fails with every remaining byte consumed.
pub fn read_u64_le(source: &mut BufferIterator) -> (r: Result<u64, ()>)
    requires
        old(source).wf(),
    ensures
        final(source).wf(),
        final(source).data() == old(source).data(),
        (r, final(source).pos()) == decode_u64(old(source).data(), old(source).pos()),
{
    match take_bytes(source, 8) {
        Some(b) => {
            let lo: u64 = (b[0] as u64) + 0x100 * (b[1] as u64) + 0x10000 * (b[2] as u64)
                + 0x1000000 * (b[3] as u64);
            let hi: u64 = (b[4] as u64) + 0x100 * (b[5] as u64) + 0x10000 * (b[6] as u64)
                + 0x1000000 * (b[7] as u64);
            assert(b@.subrange(4, 8)[0] == b@[4] && b@.subrange(4, 8)[1] == b@[5]
                && b@.subrange(4, 8)[2] == b@[6] && b@.subrange(4, 8)[3] == b@[7]);
            Ok(lo + 0x1_0000_0000 * hi)
        },
        None => Err(()),
    }
}

impl ToBytes for bool {
    open spec fn encoding(&self) -> Seq<u8> {
        seq![if *self { 1u8 } else { 0u8 }]
    }

    fn to_bytes(&self, buf: &mut Vec<u8>) {
        buf.push(if *self { 1 } else { 0 });
    }
}

impl ToBytes for u8 {
    open spec fn encoding(&self) -> Seq<u8> {
        seq![*self]
    }

    fn to_bytes(&self, buf: &mut Vec<u8>) {
        buf.push(*self);
    }
}

impl ToBytes for i8 {
    open spec fn encoding(&self) -> Seq<u8> {
        seq![*self as u8]
    }

    fn to_bytes(&self, buf: &mut Vec<u8>) {
        buf.push((*self) as u8);
    }
}

impl ToBytes for u16 {
    open spec fn encoding(&self) -> Seq<u8> {
        le_u16(*self)
    }

    fn to_bytes(&self, buf: &mut Vec<u8>) {
        write_u16_le(*self, buf);
    }
}

impl ToBytes for i16 {
    open spec fn encoding(&self) -> Seq<u8> {
        le_u16(*self as u16)
    }

    fn to_bytes(&self, buf: &mut Vec<u8>) {
        write_u16_le(*self as u16, buf);
    }
}

impl ToBytes for u32 {
    open spec fn encoding(&self) -> Seq<u8> {
        le_u32(*self)
    }

    fn to_bytes(&self, buf: &mut Vec<u8>) {
        write_u32_le(*self, buf);
    }
}

impl ToBytes for i32 {
    open spec fn encoding(&self) -> Seq<u8> {
        le_u32(*self as u32)
    }

    fn to_bytes(&self, buf: &mut Vec<u8>) {
        write_u32_le(*self as u32, buf);
    }
}

impl<'b> ToBytes for &'b str {
    open spec fn encoding(&self) -> Seq<u8> {
        encode_utf8((*self)@)
    }

    fn to_bytes(&self, buf: &mut Vec<u8>) {
        push_all(buf, self.as_bytes());
    }
}

impl ToBytes for String {
    open spec fn encoding(&self) -> Seq<u8> {
        encode_utf8(self@)
    }

    fn to_bytes(&self, buf: &mut Vec<u8>) {
        push_all(buf, self.as_str().as_bytes());
    }
}

impl FromBytes for bool {
    type Error = ();

    open spec fn decode(data: Seq<u8>, pos: int) -> (Result<bool, ()>, int) {
        match byte_at(data, pos) {
            Some(b) => (Ok(b != 0), pos + 1),
            None => (Err(()), pos),
        }
    }

    fn from_bytes(source: &mut BufferIterator) -> (r: Result<bool, ()>) {
        match source.next() {
            Some(x) => Ok(x != 0),
            None => Err(()),
        }
    }
}

impl FromBytes for u8 {
    type Error = ();

    open spec fn decode(data: Seq<u8>, pos: int) -> (Result<u8, ()>, int) {
        match byte_at(data, pos) {
            Some(b) => (Ok(b), pos + 1),
            None => (Err(()), pos),
        }
    }

    fn from_bytes(source: &mut BufferIterator) -> (r: Result<u8, ()>) {
        match source.next() {
            Some(x) => Ok(x),
            None => Err(()),
        }
    }
}

impl FromBytes for i8 {
    type Error = ();

    open spec fn decode(data: Seq<u8>, pos: int) -> (Result<i8, ()>, int) {
        match byte_at(data, pos) {
            Some(b) => (Ok(b as i8), pos + 1),
            None => (Err(()), pos),
        }
    }

    fn from_bytes(source: &mut BufferIterator) -> (r: Result<i8, ()>) {
        match source.next() {
            Some(x) => Ok(x as i8),
            None => Err(()),
        }
    }
}

impl FromBytes for u16 {
    type Error = ();

    open spec fn decode(data: Seq<u8>, pos: int) -> (Result<u16, ()>, int) {
        match take_spec(data, pos, 2) {
            (Some(b), p) => (Ok(u16_from_le(b)), p),
            (None, p) => (Err(()), p),
        }
    }

    fn from_bytes(source: &mut BufferIterator) -> (r: Result<u16, ()>) {
        match take_bytes(source, 2) {
            Some(b) => Ok((b[0] as u16) + 256 * (b[1] as u16)),
            None => Err(()),
        }
    }
}

impl FromBytes for i16 {
    type Error = ();

    open spec fn decode(data: Seq<u8>, pos: int) -> (Result<i16, ()>, int) {
        match take_spec(data, pos, 2) {
            (Some(b), p) => (Ok(u16_from_le(b) as i16), p),
            (None, p) => (Err(()), p),
        }
    }

    fn from_bytes(source: &mut BufferIterator) -> (r: Result<i16, ()>) {
        match take_bytes(source, 2) {
            Some(b) => {
                let u: u16 = (b[0] as u16) + 256 * (b[1] as u16);
                Ok(u as i16)
            },
            None => Err(()),
        }
    }
}

impl FromBytes for u32 {
    type Error = ();

    open spec fn decode(data: Seq<u8>, pos: int) -> (Result<u32, ()>, int) {
        match take_spec(data, pos, 4) {
            (Some(b), p) => (Ok(u32_from_le(b)), p),
            (None, p) => (Err(()), p),
        }
    }

    fn from_bytes(source: &mut BufferIterator) -> (r: Result<u32, ()>) {
        read_u32_le(source)
    }
}

impl FromBytes for i32 {
    type Error = ();

    open spec fn decode(data: Seq<u8>, pos: int) -> (Result<i32, ()>, int) {
        match take_spec(data, pos, 4) {
            (Some(b), p) => (Ok(u32_from_le(b) as i32), p),
            (None, p) => (Err(()), p),
        }
    }

    fn from_bytes(source: &mut BufferIterator) -> (r: Result<i32, ()>) {
        match read_u32_le(source) {
            Ok(u) => Ok(u as i32),
            Err(e) => Err(e),
        }
    }
}

/// Appends `c` to the end of `s`.
#[verifier::external_body]
fn push_char(s: &mut String, c: char)
    ensures
        final(s)@ == old(s)@.push(c),
{
    s.push(c)
}

impl FromBytes for String {
    type Error = ();

    /// A string is a length byte followed by that many bytes, each read as one char.
    open spec fn decode(data: Seq<u8>, pos: int) -> (Result<Seq<char>, ()>, int) {
        match byte_at(data, pos) {
            None => (Err(()), pos),
            Some(n) => match take_spec(data, pos + 1, n as int) {
                (Some(b), p) => (Ok(latin1(b)), p),
                (None, p) => (Err(()), p),
            },
        }
    }

    fn from_bytes(source: &mut BufferIterator) -> (r: Result<String, ()>) {
        let len = match source.next() {
            Some(l) => l,
            None => {
                return Err(());
            },
        };
        match take_bytes(source, len as usize) {
            Some(b) => {
                let mut s = String::new();
                let mut i: usize = 0;
                while i < b.len()
                    invariant
                        i <= b@.len(),
                        s@ == latin1(b@.subrange(0, i as int)),
                    decreases b@.len() - i,
                {
                    push_char(&mut s, b[i] as char);
                    i = i + 1;
                    assert(latin1(b@.subrange(0, i as int)) == latin1(b@.subrange(0, i - 1)).push(
                        b@[i - 1] as char,
                    ));
                }
                assert(b@.subrange(0, b@.len() as int) == b@);
                Ok(s)
            },
            None => Err(()),
        }
    }
}

/// Reading back the little-endian bytes of a `u16` gives the `u16`.
pub proof fn lemma_le_u16(x: u16)
    ensures
        le_u16(x).len() == 2,
        u16_from_le(le_u16(x)) == x,
{
}

/// Reading back the little-endian bytes of a `u32` gives the `u32`.
pub proof fn lemma_le_u32(x: u32)
    ensures
        le_u32(x).len() == 4,
        u32_from_le(le_u32(x)) == x,
{
    let b = le_u32(x);
    assert(x as u64 == ((x % 256) as u64) + 0x100 * (((x / 0x100) % 256) as u64) + 0x10000 * (((x
        / 0x10000) % 256) as u64) + 0x1000000 * ((x / 0x1000000) as u64)) by (bit_vector);
    assert(b[0] == x % 256);
    assert(b[1] == (x / 0x100) % 256);
    assert(b[2] == (x / 0x10000) % 256);
    assert(b[3] == x / 0x1000000);
}

/// Reading back the little-endian bytes of a `u64` gives the `u64`.
pub proof fn lemma_le_u64(x: u64)
    ensures
        le_u64(x).len() == 8,
        u64_from_le(le_u64(x)) == x,
{
    let lo = (x % 0x1_0000_0000) as u32;
    let hi = (x / 0x1_0000_0000) as u32;
    lemma_le_u32(lo);
    lemma_le_u32(hi);
    assert(le_u64(x).subrange(4, 8) == le_u32(hi));
}

/// A signed integer survives the trip through its unsigned bit pattern.
pub proof fn lemma_signed_casts(a: i8, b: i16, c: i32)
    ensures
        (a as u8) as i8 == a,
        (b as u16) as i16 == b,
        (c as u32) as i32 == c,
{
    assert((a as u8) as i8 == a) by (bit_vector);
    assert((b as u16) as i16 == b) by (bit_vector);
    assert((c as u32) as i32 == c) by (bit_vector);
}

/// Reading a `u32` where its little-endian bytes stand gives it.
pub proof fn lemma_u32_at(data: Seq<u8>, pos: int, x: u32)
    requires
        0 <= pos,
        pos + 4 <= data.len(),
        data.subrange(pos, pos + 4) == le_u32(x),
    ensures
        <u32 as FromBytes>::decode(data, pos) == (Ok::<u32, ()>(x), pos + 4),
{
    lemma_le_u32(x);
}

/// Reading a `u16` where its little-endian bytes stand gives it.
pub proof fn lemma_u16_at(data: Seq<u8>, pos: int, x: u16)
    requires
        0 <= pos,
        pos + 2 <= data.len(),
        data.subrange(pos, pos + 2) == le_u16(x),
    ensures
        <u16 as FromBytes>::decode(data, pos) == (Ok::<u16, ()>(x), pos + 2),
{
    lemma_le_u16(x);
}

/// `take_spec` at `pos` in `prefix + bytes + rest` (with `pos` the length of `prefix`)
/// reads `bytes`.
pub proof fn lemma_take_middle(prefix: Seq<u8>, bytes: Seq<u8>, rest: Seq<u8>)
    ensures
        take_spec(prefix + bytes + rest, prefix.len() as int, bytes.len() as int) == (
            Some(bytes),
            (prefix.len() + bytes.len()) as int,
        ),
{
    let data = prefix + bytes + rest;
    assert(data.subrange(prefix.len() as int, (prefix.len() + bytes.len()) as int) == bytes);
}

} // verus!
