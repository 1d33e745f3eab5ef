//! A DNS stub resolver's core: the wire format of queries and responses,
//! and the decisions of an iterative resolution.
//!
//! Queries are built by [`build_query`], responses are read by
//! [`decode_message`], and a [`Resolver`] decides, response by response,
//! whether a resolution is answered, goes on at another name server, or
//! ends without an address. Sending and receiving datagrams is left to the
//! caller.
//!
//! Every function states what it returns over a model of the wire format:
//! `name_at`, `record_at`, `message_at` and their like say what the octets
//! of a message mean, and the executable decoders are proved against them.
//! Untrusted input never panics: each way in which a message can be
//! malformed has its [`DnsError`].

use crate::buffer::datagram_octets;
use crate::domain::encode_name;
use crate::query::QueryView;
use arrayvec::ArrayVec;
use vstd::prelude::*;
use vstd::string::StringSliceAdditionalSpecFns;

pub mod buffer;
pub mod constants;
pub mod decoder;
pub mod domain;
pub mod encoder;
pub mod error;
pub mod header;
pub mod message;
pub mod query;
pub mod resolver;
pub mod rr;
pub mod text;

pub use crate::constants::{QueryClass, QueryType, ResponseClass, ResponseType};
pub use crate::decoder::Decoder;
pub use crate::domain::{decode_domain, encode_domain, Domain, Label};
pub use crate::encoder::Encoder;
pub use crate::error::DnsError;
pub use crate::header::Header;
pub use crate::message::{decode_message, Message};
pub use crate::query::Query;
pub use crate::resolver::{accept_response, fresh_query, Resolver, ResolverState};
pub use crate::rr::{RData, ResponseRecord};

verus! {

/// The flags of a query that asks the server to resolve the name itself:
/// only the RD bit is set.
pub const RECURSION_DESIRED: u16 = 0x0100;

/// The datagram of a query with one question of class IN: the header, then
/// the question for the name with the given wire form.
pub open spec fn query_wire(id: u16, type_: QueryType, name: Seq<u8>) -> Seq<u8> {
    (Header {
        id,
        flags: RECURSION_DESIRED,
        qd_count: 1,
        an_count: 0,
        ns_count: 0,
        ad_count: 0,
    }).wire() + (QueryView { qname: name, qtype: type_, qclass: QueryClass::IN }).wire()
}

/// The datagram that asks for the records of the given type of a name in
/// text, under the given transaction id. It fails exactly where the name
/// cannot be encoded.
pub fn build_query(id: u16, type_: QueryType, domain: &str) -> (r: Result<
    ArrayVec<u8, 512>,
    DnsError,
>)
    ensures
        match r {
            Ok(datagram) => encode_name(domain.spec_bytes()) matches Ok(name)
                && datagram_octets(datagram) == query_wire(id, type_, name),
            Err(e) => encode_name(domain.spec_bytes()) == Err::<Seq<u8>, DnsError>(e),
        },
{
    let qname = Domain::encode(domain)?;
    let mut encoder = Encoder::new();
    let mut header = Header::new(id, RECURSION_DESIRED);
    header.qd_count = header.qd_count + 1;
    let wrote_header = header.encode(&mut encoder);
    assert(wrote_header is Ok);
    let question = Query { qname, qtype: type_, qclass: QueryClass::IN };
    assert(question@.wire().len() == question@.qname.len() + 4);
    let wrote_question = question.encode(&mut encoder);
    assert(wrote_question is Ok);
    Ok(encoder.bytes())
}

} // verus!
