//! A reader over a borrowed byte slice, consuming from the front.

use vstd::prelude::*;
use vstd::slice::{slice_subrange, slice_to_vec};
use crate::value::{Error, Value, model};
use crate::decode::dec;
use crate::de::decode_at;

verus! {

broadcast use vstd::seq::group_seq_axioms;

/// A reader for a slice of bytes.
pub struct SliceReader<'s> {
    slice: &'s [u8],
}

impl<'s> SliceReader<'s> {
    /// The bytes that remain to be read.
    pub closed spec fn remaining(&self) -> Seq<u8> {
        self.slice@
    }

    /// Creates a new slice reader over the whole slice.
    pub fn new(slice: &'s [u8]) -> (r: Self)
        ensures
            r.remaining() == slice@,
    {
        Self { slice }
    }

    /// Returns the first n bytes and consumes them. Fails, consuming
    /// nothing, when fewer than n bytes remain.
    pub fn get_byte_slice(&mut self, n: usize) -> (r: Result<&'s [u8], Error>)
        ensures
            r is Ok <==> old(self).remaining().len() >= n,
            r matches Ok(b) ==> b@ == old(self).remaining().take(n as int)
                && final(self).remaining() == old(self).remaining().skip(n as int),
            r is Err ==> final(self).remaining() == old(self).remaining()
                && (r matches Err(e) && e == Error::UnexpectedEof),
    {
        if self.slice.len() < n {
            return Err(Error::UnexpectedEof);
        }
        let read_slice = slice_subrange(self.slice, 0, n);
        let rest = slice_subrange(self.slice, n, self.slice.len());
        self.slice = rest;
        proof {
            assert(read_slice@ =~= old(self).remaining().take(n as int));
            assert(rest@ =~= old(self).remaining().skip(n as int));
        }
        Ok(read_slice)
    }

    /// The next byte, without consuming it.
    pub fn peek(&self) -> (r: Option<u8>)
        ensures
            r is Some <==> self.remaining().len() > 0,
            r matches Some(b) ==> b == self.remaining()[0],
    {
        if self.slice.len() > 0 {
            Some(self.slice[0])
        } else {
            None
        }
    }

    /// The next n bytes, without consuming them.
    pub fn peek_bytes(&self, n: usize) -> (r: Option<&[u8]>)
        ensures
            r is Some <==> self.remaining().len() >= n,
            r matches Some(b) ==> b@ == self.remaining().take(n as int),
    {
        if self.slice.len() >= n {
            let b = slice_subrange(self.slice, 0, n);
            proof {
                assert(b@ =~= self.remaining().take(n as int));
            }
            Some(b)
        } else {
            None
        }
    }

    /// The next byte, consuming it.
    pub fn next(&mut self) -> (r: Option<u8>)
        ensures
            r is Some <==> old(self).remaining().len() > 0,
            r matches Some(b) ==> b == old(self).remaining()[0]
                && final(self).remaining() == old(self).remaining().skip(1),
            r is None ==> final(self).remaining() == old(self).remaining(),
    {
        if self.slice.len() == 0 {
            return None;
        }
        match self.get_byte_slice(1) {
            Ok(buf) => Some(buf[0]),
            Err(_) => None,
        }
    }

    /// Fills the buffer from the front of the reader. Fails, consuming
    /// nothing, when fewer bytes remain than the buffer holds.
    pub fn read_exact(&mut self, buf: &mut Vec<u8>) -> (r: Result<(), Error>)
        ensures
            r is Ok <==> old(self).remaining().len() >= old(buf).len(),
            r is Ok ==> final(buf)@ == old(self).remaining().take(old(buf).len() as int)
                && final(self).remaining() == old(self).remaining().skip(old(buf).len() as int)
                && final(buf).len() == old(buf).len(),
            r is Err ==> final(self).remaining() == old(self).remaining()
                && final(buf)@ == old(buf)@,
    {
        let n = buf.len();
        if self.slice.len() < n {
            return Err(Error::UnexpectedEof);
        }
        match self.get_byte_slice(n) {
            Ok(read_slice) => {
                let mut copy = slice_to_vec(read_slice);
                buf.clear();
                buf.append(&mut copy);
                Ok(())
            },
            Err(e) => Err(e),
        }
    }

    /// Reads exactly N bytes into an owned buffer, or nothing when fewer
    /// remain.
    pub fn read_const_bytes<const N: usize>(&mut self) -> (r: Option<Vec<u8>>)
        ensures
            r is Some <==> old(self).remaining().len() >= N,
            r matches Some(b) ==> b@ == old(self).remaining().take(N as int)
                && b.len() == N
                && final(self).remaining() == old(self).remaining().skip(N as int),
            r is None ==> final(self).remaining() == old(self).remaining(),
    {
        if self.slice.len() < N {
            return None;
        }
        match self.get_byte_slice(N) {
            Ok(read_slice) => Some(slice_to_vec(read_slice)),
            Err(_) => None,
        }
    }

    /// Decodes one value from the front of the reader and consumes its
    /// bytes. Mirrors the decoding relation on the remaining bytes.
    pub fn read_value(&mut self) -> (r: Result<Value, Error>)
        ensures
            r matches Ok(v) ==> (dec(old(self).remaining()) matches Ok((dv, n)) && dv == model(v)
                && final(self).remaining() == old(self).remaining().skip(n)),
            r matches Err(e) ==> dec(old(self).remaining()) == Err::<
                (crate::value::VData, int),
                Error,
            >(e) && final(self).remaining() == old(self).remaining(),
    {
        proof {
            assert(self.slice@.skip(0) =~= self.slice@);
        }
        match decode_at(self.slice, 0) {
            Ok((v, n)) => {
                let rest = slice_subrange(self.slice, n, self.slice.len());
                proof {
                    assert(rest@ =~= old(self).remaining().skip(n as int));
                }
                self.slice = rest;
                Ok(v)
            },
            Err(e) => Err(e),
        }
    }
}

} // verus!
