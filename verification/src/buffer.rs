//! A cursor over a byte buffer, and the byte-level vocabulary that the file formats are
//! specified in.
use vstd::prelude::*;

verus! {

/// The byte at `pos` in `data`, if there is one.
pub open spec fn byte_at(data: Seq<u8>, pos: int) -> Option<u8> {
    if 0 <= pos < data.len() {
        Some(data[pos])
    } else {
        None
    }
}

/// True when `n` bytes can be read from `data` starting at `pos`.
pub open spec fn has_bytes(data: Seq<u8>, pos: int, n: int) -> bool {
    0 <= pos && pos + n <= data.len()
}

/// A struct to iterate over the bytes of a buffer, and keep track of the current position
/// for better error messages
#[derive(Debug, Clone)]
pub struct BufferIterator<'a> {
    index: usize,
    source: &'a [u8],
}

impl<'a> BufferIterator<'a> {
    /// The whole buffer this iterator walks over.
    pub closed spec fn data(&self) -> Seq<u8> {
        self.source@
    }

    /// The index of the next byte this iterator hands out.
    pub closed spec fn pos(&self) -> int {
        self.index as int
    }

    /// The iterator's position lies within its buffer (or just past its last byte).
    pub open spec fn wf(&self) -> bool {
        0 <= self.pos() <= self.data().len()
    }

    /// Creates a new BufferIterator over a source buffer
    pub fn new(source: &'a [u8]) -> (r: Self)
        ensures
            r.data() == source@,
            r.pos() == 0,
            r.wf(),
    {
        Self { index: 0, source }
    }

    /// Peeks the next value in the buffer, if any.
    ///
    /// Returns Some(value) if there is one, or None if EOF has been reached.
    pub fn peek(&self) -> (r: Option<u8>)
        ensures
            r == byte_at(self.data(), self.pos()),
    {
        if self.index < self.source.len() {
            Some(self.source[self.index])
        } else {
            None
        }
    }

    /// Returns the current byte index into the file
    pub fn current_index(&self) -> (r: usize)
        ensures
            r == self.pos(),
    {
        self.index
    }

    /// Copies the internal buffer to a new Vec<u8>.
    pub fn collect_vec(self) -> (r: Vec<u8>)
        ensures
            r@ == self.data(),
    {
        let mut v: Vec<u8> = Vec::with_capacity(self.source.len());
        let mut i: usize = 0;
        while i < self.source.len()
            invariant
                i <= self.source@.len(),
                v@ == self.source@.subrange(0, i as int),
            decreases self.source@.len() - i,
        {
            v.push(self.source[i]);
            i = i + 1;
        }
        assert(v@ == self.source@);
        v
    }

    /// Returns the size of the source buffer
    pub fn len(&self) -> (r: usize)
        ensures
            r == self.data().len(),
    {
        self.source.len()
    }

    /// Returns true if this iterator is empty
    pub fn is_empty(&self) -> (r: bool)
        ensures
            r == (self.pos() == self.data().len()),
    {
        self.current_index() == self.source.len()
    }

    /// The whole buffer this iterator walks over, whatever its position.
    pub(crate) fn source_bytes(&self) -> (r: &'a [u8])
        ensures
            r@ == self.data(),
    {
        self.source
    }

    /// Drops the first `n` bytes of the buffer this iterator walks over, as a reader that
    /// takes bytes from its front does; the position stays as it is.
    pub(crate) fn drop_front(&mut self, n: usize)
        requires
            n <= old(self).data().len(),
        ensures
            final(self).data() == old(self).data().skip(n as int),
            final(self).pos() == old(self).pos(),
    {
        let len = self.source.len();
        self.source = vstd::slice::slice_subrange(self.source, n, len);
        assert(self.source@ =~= old(self).data().skip(n as int));
    }

    /// Hands out the next byte of the buffer and moves past it, or returns None at the
    /// end of the buffer, where the position stays as it is.
    pub fn next(&mut self) -> (r: Option<u8>)
        ensures
            old(self).wf() ==> final(self).wf(),
            final(self).data() == old(self).data(),
            r == byte_at(old(self).data(), old(self).pos()),
            final(self).pos() == if r is Some {
                old(self).pos() + 1
            } else {
                old(self).pos()
            },
    {
        if self.index < self.source.len() {
            let b = self.source[self.index];
            self.index = self.index + 1;
            Some(b)
        } else {
            None
        }
    }
}

} // verus!
