//! A bounds-checked cursor over the octets of one message.

use crate::error::DnsError;
use vstd::prelude::*;
use vstd::slice::slice_subrange;

verus! {

/// The 16-bit value whose big-endian form is the two octets.
pub open spec fn be16(hi: u8, lo: u8) -> u16 {
    (hi as int * 256 + lo as int) as u16
}

/// The 32-bit value whose big-endian form is the four octets.
pub open spec fn be32(b0: u8, b1: u8, b2: u8, b3: u8) -> u32 {
    (b0 as int * 16777216 + b1 as int * 65536 + b2 as int * 256 + b3 as int) as u32
}

/// The 16-bit big-endian value at `pos`, where two octets are left.
pub open spec fn u16_at(buf: Seq<u8>, pos: int) -> Result<(u16, int), DnsError> {
    if 0 <= pos && pos + 2 <= buf.len() {
        Ok((be16(buf[pos], buf[pos + 1]), pos + 2))
    } else {
        Err(DnsError::Truncated)
    }
}

/// The 32-bit big-endian value at `pos`, where four octets are left.
pub open spec fn u32_at(buf: Seq<u8>, pos: int) -> Result<(u32, int), DnsError> {
    if 0 <= pos && pos + 4 <= buf.len() {
        Ok((be32(buf[pos], buf[pos + 1], buf[pos + 2], buf[pos + 3]), pos + 4))
    } else {
        Err(DnsError::Truncated)
    }
}

/// A read-only cursor over one message. The buffer is never modified; the
/// cursor only remembers how many of its octets have been consumed.
#[derive(Debug, Clone, Copy)]
pub struct Decoder<'a> {
    /// The whole message.
    buffer: &'a [u8],
    /// How many octets of `buffer` have been consumed.
    position: usize,
}

impl<'a> Decoder<'a> {
    #[verifier::type_invariant]
    spec fn in_bounds(self) -> bool {
        self.position <= self.buffer@.len()
    }

    /// The whole message, from its first octet.
    pub closed spec fn bytes(&self) -> Seq<u8> {
        self.buffer@
    }

    /// The number of octets consumed so far.
    pub closed spec fn offset(&self) -> nat {
        self.position as nat
    }

    /// The octets that have not been consumed yet.
    pub open spec fn remaining(&self) -> Seq<u8> {
        self.bytes().subrange(self.offset() as int, self.bytes().len() as int)
    }

    /// A cursor at the start of `buffer`.
    pub fn new(buffer: &'a [u8]) -> (decoder: Self)
        ensures
            decoder.bytes() == buffer@,
            decoder.offset() == 0,
    {
        Self { buffer, position: 0 }
    }

    /// The length of the whole message.
    pub fn len(&self) -> (n: usize)
        ensures
            n == self.bytes().len(),
            self.offset() <= n,
    {
        proof {
            use_type_invariant(self);
        }
        self.buffer.len()
    }

    /// The number of octets consumed so far.
    pub fn current(&self) -> (n: usize)
        ensures
            n == self.offset(),
            n <= self.bytes().len(),
    {
        proof {
            use_type_invariant(self);
        }
        self.position
    }

    /// The next octet, which stays unconsumed; `None` at the end of the
    /// buffer.
    pub fn peek(&self) -> (next: Option<u8>)
        ensures
            next == if self.offset() < self.bytes().len() {
                Some(self.bytes()[self.offset() as int])
            } else {
                None
            },
    {
        if self.position < self.buffer.len() {
            Some(self.buffer[self.position])
        } else {
            None
        }
    }

    /// Consumes and returns the next octet; `None` at the end of the
    /// buffer, where nothing is consumed.
    pub fn pop(&mut self) -> (next: Option<u8>)
        ensures
            final(self).bytes() == old(self).bytes(),
            next == if old(self).offset() < old(self).bytes().len() {
                Some(old(self).bytes()[old(self).offset() as int])
            } else {
                None
            },
            final(self).offset() == if next is Some {
                old(self).offset() + 1
            } else {
                old(self).offset()
            },
    {
        if self.position < self.buffer.len() {
            let first = self.buffer[self.position];
            self.position = self.position + 1;
            Some(first)
        } else {
            None
        }
    }

    /// Consumes and returns the next `count` octets. Where fewer are left
    /// the read fails with `Truncated` and consumes nothing.
    pub fn read_slice(&mut self, count: usize) -> (r: Result<&'a [u8], DnsError>)
        ensures
            final(self).bytes() == old(self).bytes(),
            match r {
                Ok(octets) => {
                    &&& old(self).offset() + count <= old(self).bytes().len()
                    &&& octets@ == old(self).bytes().subrange(
                        old(self).offset() as int,
                        old(self).offset() + count,
                    )
                    &&& final(self).offset() == old(self).offset() + count
                },
                Err(e) => {
                    &&& e == DnsError::Truncated
                    &&& old(self).offset() + count > old(self).bytes().len()
                    &&& final(self).offset() == old(self).offset()
                },
            },
    {
        proof {
            use_type_invariant(&*self);
        }
        if count > self.buffer.len() - self.position {
            return Err(DnsError::Truncated);
        }
        let start = self.position;
        let end = start + count;
        let octets = slice_subrange(self.buffer, start, end);
        self.position = end;
        Ok(octets)
    }

    /// Consumes two octets and returns them as a big-endian value.
    pub fn read_u16(&mut self) -> (r: Result<u16, DnsError>)
        ensures
            final(self).bytes() == old(self).bytes(),
            match r {
                Ok(value) => u16_at(old(self).bytes(), old(self).offset() as int) == Ok::<
                    (u16, int),
                    DnsError,
                >((value, final(self).offset() as int)),
                Err(e) => {
                    &&& u16_at(old(self).bytes(), old(self).offset() as int) == Err::<
                        (u16, int),
                        DnsError,
                    >(e)
                    &&& final(self).offset() == old(self).offset()
                },
            },
    {
        let s = self.read_slice(2)?;
        let hi: u16 = s[0] as u16;
        let lo: u16 = s[1] as u16;
        Ok(hi * 256 + lo)
    }

    /// Consumes four octets and returns them as a big-endian value.
    pub fn read_u32(&mut self) -> (r: Result<u32, DnsError>)
        ensures
            final(self).bytes() == old(self).bytes(),
            match r {
                Ok(value) => u32_at(old(self).bytes(), old(self).offset() as int) == Ok::<
                    (u32, int),
                    DnsError,
                >((value, final(self).offset() as int)),
                Err(e) => {
                    &&& u32_at(old(self).bytes(), old(self).offset() as int) == Err::<
                        (u32, int),
                        DnsError,
                    >(e)
                    &&& final(self).offset() == old(self).offset()
                },
            },
    {
        let s = self.read_slice(4)?;
        let b0: u32 = s[0] as u32;
        let b1: u32 = s[1] as u32;
        let b2: u32 = s[2] as u32;
        let b3: u32 = s[3] as u32;
        Ok(b0 * 16777216 + b1 * 65536 + b2 * 256 + b3)
    }

    /// A cursor over the same message at the absolute offset `index`,
    /// counted from the start of the whole message and not from this
    /// cursor's position. An offset that is not inside the message fails
    /// with `Truncated`.
    pub fn clone_at_index(&self, index: usize) -> (r: Result<Self, DnsError>)
        ensures
            match r {
                Ok(jumped) => {
                    &&& index < self.bytes().len()
                    &&& jumped.bytes() == self.bytes()
                    &&& jumped.offset() == index
                },
                Err(e) => e == DnsError::Truncated && index >= self.bytes().len(),
            },
    {
        if index < self.buffer.len() {
            Ok(Self { buffer: self.buffer, position: index })
        } else {
            Err(DnsError::Truncated)
        }
    }
}

} // verus!
