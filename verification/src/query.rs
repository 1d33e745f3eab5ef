//! The question of a message.

use crate::constants::{QueryClass, QueryType};
use crate::decoder::{u16_at, Decoder};
use crate::domain::{domain_at, Domain};
use crate::encoder::{u16_octets, Encoder, DATAGRAM_SIZE};
use crate::error::DnsError;
use vstd::prelude::*;

verus! {

/// The one question of a message.
#[derive(Debug, PartialEq, Eq)]
pub struct Query {
    /// The name that is asked about.
    pub qname: Domain,
    /// The type of record that is asked for.
    pub qtype: QueryType,
    /// The class that is asked for.
    pub qclass: QueryClass,
}

/// What a `Query` stands for.
pub struct QueryView {
    /// The wire form of the name.
    pub qname: Seq<u8>,
    /// The type of record that is asked for.
    pub qtype: QueryType,
    /// The class that is asked for.
    pub qclass: QueryClass,
}

impl QueryView {
    /// The question on the wire: the name, then the type code, then the
    /// class code.
    pub open spec fn wire(self) -> Seq<u8> {
        self.qname + u16_octets(self.qtype.spec_code()) + u16_octets(self.qclass.spec_code())
    }
}

impl View for Query {
    type V = QueryView;

    open spec fn view(&self) -> QueryView {
        QueryView { qname: self.qname@, qtype: self.qtype, qclass: self.qclass }
    }
}

impl Clone for Query {
    /// The same question.
    fn clone(&self) -> (copy: Self)
        ensures
            copy@ == self@,
    {
        Query { qname: self.qname.clone(), qtype: self.qtype, qclass: self.qclass }
    }
}

/// The question at `pos`: a name, a type code and a class code. A code that
/// the registry does not hold is rejected with `UnsupportedCode`.
pub open spec fn query_at(buf: Seq<u8>, pos: int) -> Result<(QueryView, int), DnsError> {
    match domain_at(buf, pos) {
        Err(e) => Err(e),
        Ok((qname, after_name)) => match u16_at(buf, after_name) {
            Err(e) => Err(e),
            Ok((type_code, after_type)) => match QueryType::from_code(type_code) {
                None => Err(DnsError::UnsupportedCode),
                Some(qtype) => match u16_at(buf, after_type) {
                    Err(e) => Err(e),
                    Ok((class_code, end)) => match QueryClass::from_code(class_code) {
                        None => Err(DnsError::UnsupportedCode),
                        Some(qclass) => Ok((QueryView { qname, qtype, qclass }, end)),
                    },
                },
            },
        },
    }
}

impl Query {
    /// Appends the question to the datagram. Fails, and writes nothing,
    /// where it does not fit into the room that is left.
    pub fn encode(&self, encoder: &mut Encoder) -> (r: Result<(), ()>)
        ensures
            r is Ok <==> old(encoder)@.len() + self@.wire().len() <= DATAGRAM_SIZE,
            r is Ok ==> final(encoder)@ == old(encoder)@ + self@.wire(),
            r is Err ==> final(encoder)@ == old(encoder)@,
    {
        let name = self.qname.as_bytes();
        if name.len() + 4 > DATAGRAM_SIZE - encoder.len() {
            return Err(());
        }
        encoder.try_write_slice(name)?;
        encoder.try_write_u16(self.qtype.code())?;
        encoder.try_write_u16(self.qclass.code())?;
        assert(encoder@ =~= old(encoder)@ + self@.wire());
        Ok(())
    }

    /// Reads the question. On an error nothing is consumed.
    pub fn decode(decoder: &mut Decoder) -> (r: Result<Self, DnsError>)
        ensures
            final(decoder).bytes() == old(decoder).bytes(),
            match r {
                Ok(query) => query_at(old(decoder).bytes(), old(decoder).offset() as int)
                    == Ok::<(QueryView, int), DnsError>((query@, final(decoder).offset() as int)),
                Err(e) => {
                    &&& query_at(old(decoder).bytes(), old(decoder).offset() as int) == Err::<
                        (QueryView, int),
                        DnsError,
                    >(e)
                    &&& final(decoder).offset() == old(decoder).offset()
                },
            },
    {
        let mut cursor = *decoder;
        let qname = Domain::from_bytes(&mut cursor)?;
        let qtype = QueryType::try_from(cursor.read_u16()?)?;
        let qclass = QueryClass::try_from(cursor.read_u16()?)?;
        *decoder = cursor;
        Ok(Self { qname, qtype, qclass })
    }
}

} // verus!
