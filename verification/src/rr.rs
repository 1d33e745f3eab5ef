//! Resource records and their data.

use crate::constants::{ResponseClass, ResponseType};
use crate::decoder::{be16, u16_at, u32_at, Decoder};
use crate::domain::{domain_at, Domain};
use crate::error::DnsError;
use vstd::prelude::*;

verus! {

/// The data of a resource record, by the record's class and type.
#[derive(Debug, PartialEq, Eq)]
pub enum RData {
    /// The canonical name for an alias.
    CNAME(Domain),
    /// A host address: the four octets of an IPv4 address.
    A([u8; 4]),
    /// A host address: the eight groups of an IPv6 address.
    AAAA([u16; 8]),
    /// An authoritative name server.
    NS(Domain),
}

/// What an `RData` stands for.
pub enum RDataView {
    /// The wire form of the canonical name.
    CNAME(Seq<u8>),
    /// The four octets of an IPv4 address.
    A([u8; 4]),
    /// The eight groups of an IPv6 address.
    AAAA([u16; 8]),
    /// The wire form of the name server's name.
    NS(Seq<u8>),
}

impl View for RData {
    type V = RDataView;

    open spec fn view(&self) -> RDataView {
        match self {
            RData::CNAME(name) => RDataView::CNAME(name@),
            RData::A(address) => RDataView::A(*address),
            RData::AAAA(address) => RDataView::AAAA(*address),
            RData::NS(name) => RDataView::NS(name@),
        }
    }
}

impl Clone for RData {
    /// The same data.
    fn clone(&self) -> (copy: Self)
        ensures
            copy@ == self@,
    {
        match self {
            RData::CNAME(name) => RData::CNAME(name.clone()),
            RData::A(address) => RData::A(*address),
            RData::AAAA(address) => RData::AAAA(*address),
            RData::NS(name) => RData::NS(name.clone()),
        }
    }
}

/// The IPv4 address whose four octets stand at `pos`.
pub open spec fn ipv4_at(buf: Seq<u8>, pos: int) -> Result<([u8; 4], int), DnsError> {
    if 0 <= pos && pos + 4 <= buf.len() {
        Ok(([buf[pos], buf[pos + 1], buf[pos + 2], buf[pos + 3]], pos + 4))
    } else {
        Err(DnsError::Truncated)
    }
}

/// The IPv6 address whose eight big-endian groups stand at `pos`.
pub open spec fn ipv6_at(buf: Seq<u8>, pos: int) -> Result<([u16; 8], int), DnsError> {
    if 0 <= pos && pos + 16 <= buf.len() {
        Ok(
            (
                [
                    be16(buf[pos], buf[pos + 1]),
                    be16(buf[pos + 2], buf[pos + 3]),
                    be16(buf[pos + 4], buf[pos + 5]),
                    be16(buf[pos + 6], buf[pos + 7]),
                    be16(buf[pos + 8], buf[pos + 9]),
                    be16(buf[pos + 10], buf[pos + 11]),
                    be16(buf[pos + 12], buf[pos + 13]),
                    be16(buf[pos + 14], buf[pos + 15]),
                ],
                pos + 16,
            ),
        )
    } else {
        Err(DnsError::Truncated)
    }
}

/// The data at `pos` of a record of the given type and class. Only the
/// Internet class is known, with the types A, AAAA, CNAME and NS; every
/// other pair is rejected with `UnsupportedRecordType`.
pub open spec fn rdata_at(buf: Seq<u8>, pos: int, type_: ResponseType, class: ResponseClass)
    -> Result<(RDataView, int), DnsError> {
    match (class, type_) {
        (ResponseClass::IN, ResponseType::CNAME) => match domain_at(buf, pos) {
            Ok((name, end)) => Ok((RDataView::CNAME(name), end)),
            Err(e) => Err(e),
        },
        (ResponseClass::IN, ResponseType::A) => match ipv4_at(buf, pos) {
            Ok((address, end)) => Ok((RDataView::A(address), end)),
            Err(e) => Err(e),
        },
        (ResponseClass::IN, ResponseType::AAAA) => match ipv6_at(buf, pos) {
            Ok((address, end)) => Ok((RDataView::AAAA(address), end)),
            Err(e) => Err(e),
        },
        (ResponseClass::IN, ResponseType::NS) => match domain_at(buf, pos) {
            Ok((name, end)) => Ok((RDataView::NS(name), end)),
            Err(e) => Err(e),
        },
        _ => Err(DnsError::UnsupportedRecordType),
    }
}

impl RData {
    /// Reads the data of a record of the given type and class. On an error
    /// nothing is consumed.
    pub fn decode(type_: ResponseType, class: ResponseClass, decoder: &mut Decoder) -> (r: Result<
        Self,
        DnsError,
    >)
        ensures
            final(decoder).bytes() == old(decoder).bytes(),
            match r {
                Ok(data) => {
                    &&& rdata_at(old(decoder).bytes(), old(decoder).offset() as int, type_, class)
                        == Ok::<(RDataView, int), DnsError>(
                        (data@, final(decoder).offset() as int),
                    )
                    &&& final(decoder).offset() > old(decoder).offset()
                },
                Err(e) => {
                    &&& rdata_at(old(decoder).bytes(), old(decoder).offset() as int, type_, class)
                        == Err::<(RDataView, int), DnsError>(e)
                    &&& final(decoder).offset() == old(decoder).offset()
                },
            },
    {
        let mut cursor = *decoder;
        let data = match (class, type_) {
            (ResponseClass::IN, ResponseType::CNAME) => {
                let domain = Domain::from_bytes(&mut cursor)?;
                RData::CNAME(domain)
            },
            (ResponseClass::IN, ResponseType::A) => {
                let octets = cursor.read_slice(4)?;
                let address = [octets[0], octets[1], octets[2], octets[3]];
                assert(address =~= ipv4_at(old(decoder).bytes(), old(decoder).offset() as int)->Ok_0.0);
                RData::A(address)
            },
            (ResponseClass::IN, ResponseType::AAAA) => {
                let address = [
                    cursor.read_u16()?,
                    cursor.read_u16()?,
                    cursor.read_u16()?,
                    cursor.read_u16()?,
                    cursor.read_u16()?,
                    cursor.read_u16()?,
                    cursor.read_u16()?,
                    cursor.read_u16()?,
                ];
                assert(address =~= ipv6_at(old(decoder).bytes(), old(decoder).offset() as int)->Ok_0.0);
                RData::AAAA(address)
            },
            (ResponseClass::IN, ResponseType::NS) => {
                let domain = Domain::from_bytes(&mut cursor)?;
                RData::NS(domain)
            },
            (_, _) => { return Err(DnsError::UnsupportedRecordType); },
        };
        *decoder = cursor;
        Ok(data)
    }
}

/// One resource record of a response.
#[derive(Debug, PartialEq, Eq)]
pub struct ResponseRecord {
    /// The name that the record is about.
    pub name: Domain,
    /// The record's type.
    pub type_: ResponseType,
    /// The record's class.
    pub class: ResponseClass,
    /// For how many seconds the record may be kept.
    pub ttl: u32,
    /// The number of octets that the record's data takes in the message.
    pub rd_length: u16,
    /// The record's data.
    pub r_data: RData,
}

/// What a `ResponseRecord` stands for.
pub struct RecordView {
    /// The wire form of the name.
    pub name: Seq<u8>,
    /// The record's type.
    pub type_: ResponseType,
    /// The record's class.
    pub class: ResponseClass,
    /// For how many seconds the record may be kept.
    pub ttl: u32,
    /// The number of octets that the record's data takes in the message.
    pub rd_length: u16,
    /// The record's data.
    pub r_data: RDataView,
}

impl View for ResponseRecord {
    type V = RecordView;

    open spec fn view(&self) -> RecordView {
        RecordView {
            name: self.name@,
            type_: self.type_,
            class: self.class,
            ttl: self.ttl,
            rd_length: self.rd_length,
            r_data: self.r_data@,
        }
    }
}

impl Clone for ResponseRecord {
    /// The same record.
    fn clone(&self) -> (copy: Self)
        ensures
            copy@ == self@,
    {
        ResponseRecord {
            name: self.name.clone(),
            type_: self.type_,
            class: self.class,
            ttl: self.ttl,
            rd_length: self.rd_length,
            r_data: self.r_data.clone(),
        }
    }
}

/// The fewest octets that a record takes in a message: one of its name,
/// and ten of its type, class, time to live and data length.
pub const MIN_RECORD_SIZE: usize = 11;

/// The record at `pos`: name, type code, class code, time to live, data
/// length and data, in this order. The data must take exactly as many
/// octets of the message as the data length says, where a compressed name
/// counts with the octets that stand in the record.
pub open spec fn record_at(buf: Seq<u8>, pos: int) -> Result<(RecordView, int), DnsError> {
    match domain_at(buf, pos) {
        Err(e) => Err(e),
        Ok((name, after_name)) => match u16_at(buf, after_name) {
            Err(e) => Err(e),
            Ok((type_code, after_type)) => match ResponseType::from_code(type_code) {
                None => Err(DnsError::UnsupportedCode),
                Some(type_) => match u16_at(buf, after_type) {
                    Err(e) => Err(e),
                    Ok((class_code, after_class)) => match ResponseClass::from_code(class_code) {
                        None => Err(DnsError::UnsupportedCode),
                        Some(class) => match u32_at(buf, after_class) {
                            Err(e) => Err(e),
                            Ok((ttl, after_ttl)) => match u16_at(buf, after_ttl) {
                                Err(e) => Err(e),
                                Ok((rd_length, data)) => match rdata_at(buf, data, type_, class) {
                                    Err(e) => Err(e),
                                    Ok((r_data, end)) => if end - data == rd_length {
                                        Ok(
                                            (
                                                RecordView {
                                                    name,
                                                    type_,
                                                    class,
                                                    ttl,
                                                    rd_length,
                                                    r_data,
                                                },
                                                end,
                                            ),
                                        )
                                    } else {
                                        Err(DnsError::RdataLengthMismatch)
                                    },
                                },
                            },
                        },
                    },
                },
            },
        },
    }
}

impl ResponseRecord {
    /// Reads one record. On an error nothing is consumed.
    pub fn decode(decoder: &mut Decoder) -> (r: Result<Self, DnsError>)
        ensures
            final(decoder).bytes() == old(decoder).bytes(),
            match r {
                Ok(record) => {
                    &&& record_at(old(decoder).bytes(), old(decoder).offset() as int) == Ok::<
                        (RecordView, int),
                        DnsError,
                    >((record@, final(decoder).offset() as int))
                    &&& final(decoder).offset() >= old(decoder).offset() + MIN_RECORD_SIZE
                },
                Err(e) => {
                    &&& record_at(old(decoder).bytes(), old(decoder).offset() as int) == Err::<
                        (RecordView, int),
                        DnsError,
                    >(e)
                    &&& final(decoder).offset() == old(decoder).offset()
                },
            },
    {
        let mut cursor = *decoder;
        let name = Domain::from_bytes(&mut cursor)?;
        let type_ = ResponseType::try_from(cursor.read_u16()?)?;
        let class = ResponseClass::try_from(cursor.read_u16()?)?;
        let ttl = cursor.read_u32()?;
        let rd_length = cursor.read_u16()?;
        let start = cursor.current();
        let r_data = RData::decode(type_, class, &mut cursor)?;
        if cursor.current() - start != rd_length as usize {
            return Err(DnsError::RdataLengthMismatch);
        }
        *decoder = cursor;
        Ok(Self { name, type_, class, ttl, rd_length, r_data })
    }
}

} // verus!
