//! The twelve-octet header of a message.

use crate::decoder::{be16, Decoder};
use crate::encoder::{u16_octets, Encoder, DATAGRAM_SIZE};
use crate::error::DnsError;
use vstd::prelude::*;

verus! {

/// The number of octets of a header on the wire.
pub const HEADER_SIZE: usize = 12;

/// The fixed start of every message. The flags are kept as one value. The
/// counts are what the message says of itself: nothing here checks them.
#[derive(Debug, Clone, Copy, PartialEq, Eq, Structural)]
pub struct Header {
    /// The token that ties a response to its query.
    pub id: u16,
    /// QR, Opcode, AA, TC, RD, RA, Z and RCODE, packed.
    pub flags: u16,
    /// The number of questions.
    pub qd_count: u16,
    /// The number of answer records.
    pub an_count: u16,
    /// The number of authority records.
    pub ns_count: u16,
    /// The number of additional records.
    pub ad_count: u16,
}

/// The header whose twelve octets stand at `pos`.
pub open spec fn header_at(buf: Seq<u8>, pos: int) -> Result<(Header, int), DnsError> {
    if 0 <= pos && pos + HEADER_SIZE <= buf.len() {
        Ok(
            (
                Header {
                    id: be16(buf[pos], buf[pos + 1]),
                    flags: be16(buf[pos + 2], buf[pos + 3]),
                    qd_count: be16(buf[pos + 4], buf[pos + 5]),
                    an_count: be16(buf[pos + 6], buf[pos + 7]),
                    ns_count: be16(buf[pos + 8], buf[pos + 9]),
                    ad_count: be16(buf[pos + 10], buf[pos + 11]),
                },
                pos + HEADER_SIZE,
            ),
        )
    } else {
        Err(DnsError::Truncated)
    }
}

impl Header {
    /// The header on the wire: its six fields in their order, each with its
    /// most significant octet first.
    pub open spec fn wire(self) -> Seq<u8> {
        u16_octets(self.id) + u16_octets(self.flags) + u16_octets(self.qd_count) + u16_octets(
            self.an_count,
        ) + u16_octets(self.ns_count) + u16_octets(self.ad_count)
    }

    /// A header with the given id and flags that counts no question and no
    /// record.
    pub fn new(id: u16, flags: u16) -> (header: Self)
        ensures
            header == (Header { id, flags, qd_count: 0, an_count: 0, ns_count: 0, ad_count: 0 }),
    {
        Self { id, flags, qd_count: 0, an_count: 0, ns_count: 0, ad_count: 0 }
    }

    /// The header on the wire.
    pub fn as_bytes(&self) -> (octets: [u8; 12])
        ensures
            octets@ == self.wire(),
    {
        let octets = [
            (self.id / 256) as u8,
            (self.id % 256) as u8,
            (self.flags / 256) as u8,
            (self.flags % 256) as u8,
            (self.qd_count / 256) as u8,
            (self.qd_count % 256) as u8,
            (self.an_count / 256) as u8,
            (self.an_count % 256) as u8,
            (self.ns_count / 256) as u8,
            (self.ns_count % 256) as u8,
            (self.ad_count / 256) as u8,
            (self.ad_count % 256) as u8,
        ];
        assert(octets@ =~= self.wire());
        octets
    }

    /// Appends the header to the datagram. Fails, and writes nothing, where
    /// fewer than twelve octets of room are left.
    pub fn encode(&self, encoder: &mut Encoder) -> (r: Result<(), ()>)
        ensures
            r is Ok <==> old(encoder)@.len() + HEADER_SIZE <= DATAGRAM_SIZE,
            r is Ok ==> final(encoder)@ == old(encoder)@ + self.wire(),
            r is Err ==> final(encoder)@ == old(encoder)@,
    {
        let octets = self.as_bytes();
        encoder.try_write_slice(octets.as_slice())
    }

    /// Reads a header. Nothing of it is checked: the counts are what the
    /// sender claims. On an error nothing is consumed.
    pub fn decode(decoder: &mut Decoder) -> (r: Result<Self, DnsError>)
        ensures
            final(decoder).bytes() == old(decoder).bytes(),
            match r {
                Ok(header) => header_at(old(decoder).bytes(), old(decoder).offset() as int)
                    == Ok::<(Header, int), DnsError>((header, final(decoder).offset() as int)),
                Err(e) => {
                    &&& header_at(old(decoder).bytes(), old(decoder).offset() as int) == Err::<
                        (Header, int),
                        DnsError,
                    >(e)
                    &&& final(decoder).offset() == old(decoder).offset()
                },
            },
    {
        let mut cursor = *decoder;
        let id = cursor.read_u16()?;
        let flags = cursor.read_u16()?;
        let qd_count = cursor.read_u16()?;
        let an_count = cursor.read_u16()?;
        let ns_count = cursor.read_u16()?;
        let ad_count = cursor.read_u16()?;
        *decoder = cursor;
        Ok(Self { id, flags, qd_count, an_count, ns_count, ad_count })
    }

    /// A header is read back from its own wire form.
    pub proof fn lemma_round_trip(self)
        ensures
            header_at(self.wire(), 0) == Ok::<(Header, int), DnsError>((self, 12)),
    {
        lemma_u16_octets(self.id);
        lemma_u16_octets(self.flags);
        lemma_u16_octets(self.qd_count);
        lemma_u16_octets(self.an_count);
        lemma_u16_octets(self.ns_count);
        lemma_u16_octets(self.ad_count);
    }
}

/// The two octets of a value are the value in big-endian form.
pub proof fn lemma_u16_octets(value: u16)
    ensures
        u16_octets(value).len() == 2,
        be16(u16_octets(value)[0], u16_octets(value)[1]) == value,
{
}

} // verus!
