//! The buffer that an outgoing datagram is written into.

use crate::buffer::{datagram_buffer, datagram_extend, datagram_octets, datagram_slice};
use arrayvec::ArrayVec;
use vstd::prelude::*;

verus! {

/// The two octets of a 16-bit value, most significant first.
pub open spec fn u16_octets(value: u16) -> Seq<u8> {
    seq![(value / 256) as u8, (value % 256) as u8]
}

/// The most that one datagram holds.
pub const DATAGRAM_SIZE: usize = 512;

/// Collects the octets of one outgoing datagram, at most `DATAGRAM_SIZE`.
pub struct Encoder {
    buffer: ArrayVec<u8, 512>,
}

impl View for Encoder {
    type V = Seq<u8>;

    /// The octets written so far.
    closed spec fn view(&self) -> Seq<u8> {
        datagram_octets(self.buffer)
    }
}

impl Encoder {
    /// An encoder that holds nothing yet.
    pub fn new() -> (encoder: Self)
        ensures
            encoder@ == Seq::<u8>::empty(),
    {
        Self { buffer: datagram_buffer() }
    }

    /// The number of octets written so far.
    pub fn len(&self) -> (n: usize)
        ensures
            n == self@.len(),
            n <= DATAGRAM_SIZE,
    {
        datagram_slice(&self.buffer).len()
    }

    /// Appends `value`, most significant octet first. Fails, and writes
    /// nothing, where fewer than two octets of room are left.
    pub fn try_write_u16(&mut self, value: u16) -> (r: Result<(), ()>)
        ensures
            r is Ok <==> old(self)@.len() + 2 <= DATAGRAM_SIZE,
            r is Ok ==> final(self)@ == old(self)@ + u16_octets(value),
            r is Err ==> final(self)@ == old(self)@,
    {
        let octets: [u8; 2] = [(value / 256) as u8, (value % 256) as u8];
        assert(octets@ =~= u16_octets(value));
        self.try_write_slice(octets.as_slice())
    }

    /// Appends `value`. Fails, and writes nothing, where it does not fit
    /// into the room that is left.
    pub fn try_write_slice(&mut self, value: &[u8]) -> (r: Result<(), ()>)
        ensures
            r is Ok <==> old(self)@.len() + value@.len() <= DATAGRAM_SIZE,
            r is Ok ==> final(self)@ == old(self)@ + value@,
            r is Err ==> final(self)@ == old(self)@,
    {
        match datagram_extend(&mut self.buffer, value) {
            Ok(()) => Ok(()),
            Err(_) => Err(()),
        }
    }

    /// The datagram that was written.
    pub fn bytes(self) -> (datagram: ArrayVec<u8, 512>)
        ensures
            datagram_octets(datagram) == self@,
    {
        self.buffer
    }
}

} // verus!
