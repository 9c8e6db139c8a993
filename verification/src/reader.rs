//! A cursor over bytes in memory.

use vstd::prelude::*;
use vstd::slice::slice_subrange;
use crate::image::DecodeError;

verus! {

/// Bytes to decode, and how many of them have been read.
pub struct Reader<'a> {
    data: &'a [u8],
    pos: usize,
}

impl<'a> Reader<'a> {
    /// All the bytes, read or not.
    pub closed spec fn bytes(&self) -> Seq<u8> {
        self.data@
    }

    /// The number of bytes read so far.
    pub closed spec fn consumed(&self) -> nat {
        self.pos as nat
    }

    /// No more has been read than there is.
    pub open spec fn wf(&self) -> bool {
        self.consumed() <= self.bytes().len()
    }

    /// The bytes not read yet.
    pub open spec fn remaining(&self) -> Seq<u8> {
        self.bytes().subrange(self.consumed() as int, self.bytes().len() as int)
    }

    /// This reader is `before` after `n` more bytes were read.
    pub open spec fn advanced(&self, before: Self, n: int) -> bool {
        &&& self.wf()
        &&& self.bytes() == before.bytes()
        &&& self.consumed() == before.consumed() + n
    }

    /// A reader at the start of `data`.
    pub fn new(data: &'a [u8]) -> (reader: Self)
        ensures
            reader.wf(),
            reader.bytes() == data@,
            reader.consumed() == 0,
            reader.remaining() == data@,
    {
        let reader = Reader { data, pos: 0 };
        assert(reader.remaining() =~= data@);
        reader
    }

    /// The number of bytes read so far.
    pub fn position(&self) -> (p: usize)
        ensures
            p == self.consumed(),
    {
        self.pos
    }

    /// Reads the next `n` bytes. Where fewer are left, nothing is read and
    /// the input counts as truncated.
    pub fn read_exact(&mut self, n: usize) -> (res: Result<&'a [u8], DecodeError>)
        requires
            old(self).wf(),
        ensures
            match res {
                Ok(got) => {
                    &&& n <= old(self).remaining().len()
                    &&& got@ == old(self).remaining().subrange(0, n as int)
                    &&& final(self).advanced(*old(self), n as int)
                },
                Err(e) => {
                    &&& e == DecodeError::TruncatedInput
                    &&& n > old(self).remaining().len()
                    &&& final(self).advanced(*old(self), 0)
                },
            },
    {
        if n > self.data.len() - self.pos {
            return Err(DecodeError::TruncatedInput);
        }
        let start: usize = self.pos;
        let got = slice_subrange(self.data, start, start + n);
        self.pos = start + n;
        assert(got@ =~= old(self).remaining().subrange(0, n as int));
        Ok(got)
    }
}

} // verus!
