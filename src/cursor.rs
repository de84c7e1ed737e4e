//! An incremental reader over a growing buffer.

use vstd::prelude::*;

verus! {

/// Bytes that were read from a stream and not yet consumed by a parser.
pub struct ByteCursor {
    buf: Vec<u8>,
}

impl View for ByteCursor {
    type V = Seq<u8>;

    /// The unread bytes, oldest first.
    closed spec fn view(&self) -> Seq<u8> {
        self.buf@
    }
}

impl ByteCursor {
    /// An empty cursor.
    pub fn new() -> (r: ByteCursor)
        ensures
            r@ == Seq::<u8>::empty(),
    {
        ByteCursor { buf: Vec::new() }
    }

    /// Appends newly read bytes after the unread ones.
    pub fn feed(&mut self, bytes: &[u8])
        ensures
            final(self)@ == old(self)@ + bytes@,
    {
        let mut i: usize = 0;
        while i < bytes.len()
            invariant
                i <= bytes@.len(),
                self@ == old(self)@ + bytes@.subrange(0, i as int),
            decreases bytes@.len() - i,
        {
            self.buf.push(bytes[i]);
            i = i + 1;
            assert(self@ =~= old(self)@ + bytes@.subrange(0, i as int));
        }
        assert(bytes@.subrange(0, bytes@.len() as int) =~= bytes@);
    }

    /// How many bytes are unread.
    pub fn available(&self) -> (r: usize)
        ensures
            r == self@.len(),
    {
        self.buf.len()
    }

    /// The unread bytes, without consuming them.
    pub fn unread(&self) -> (r: &[u8])
        ensures
            r@ == self@,
    {
        self.buf.as_slice()
    }

    /// Takes the first `n` unread bytes if that many are there; otherwise
    /// consumes nothing and reports that the data is insufficient.
    pub fn try_take(&mut self, n: usize) -> (r: Option<Vec<u8>>)
        ensures
            n <= old(self)@.len() ==> (r matches Some(v) && v@ == old(self)@.subrange(0, n as int)
                && final(self)@ == old(self)@.subrange(n as int, old(self)@.len() as int)),
            n > old(self)@.len() ==> r is None && final(self)@ == old(self)@,
    {
        if n <= self.buf.len() {
            let mut rest = self.buf.split_off(n);
            std::mem::swap(&mut self.buf, &mut rest);
            Some(rest)
        } else {
            None
        }
    }

    /// Drops every unread byte and hands them back, oldest first.
    pub fn take_all(&mut self) -> (r: Vec<u8>)
        ensures
            r@ == old(self)@,
            final(self)@ == Seq::<u8>::empty(),
    {
        let mut rest = Vec::new();
        std::mem::swap(&mut self.buf, &mut rest);
        rest
    }
}

/// Takes one byte from the cursor, or nothing when it holds none.
pub fn read_byte(cursor: &mut ByteCursor) -> (r: Option<u8>)
    ensures
        old(cursor)@.len() > 0 ==> r == Some(old(cursor)@[0])
            && final(cursor)@ == old(cursor)@.subrange(1, old(cursor)@.len() as int),
        old(cursor)@.len() == 0 ==> r is None && final(cursor)@ == old(cursor)@,
{
    match cursor.try_take(1) {
        Some(v) => Some(v[0]),
        None => None,
    }
}

} // verus!
