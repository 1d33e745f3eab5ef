//! The decisions of an iterative resolution, as a state machine that is
//! fed with responses.

use crate::build_query;
use crate::buffer::datagram_octets;
use crate::constants::QueryType;
use crate::decoder::be16;
use crate::domain::encode_name;
use crate::error::DnsError;
use crate::message::{decode_message, message_at, record_views, Message, MessageView};
use crate::query_wire;
use crate::rr::{RData, RDataView, RecordView, ResponseRecord};
use arrayvec::ArrayVec;
use vstd::prelude::*;
use vstd::string::StringSliceAdditionalSpecFns;

verus! {

/// The most referrals that one resolution follows.
pub const MAX_REFERRALS: usize = 16;

/// `rand::random` at `u16`. Nothing is known of the value it returns.
#[verifier::external_body]
fn random_id() -> u16 {
    rand::random()
}

/// The datagram of a query for the addresses of a name in text, under a
/// transaction id that is drawn at random, and that id. It fails exactly
/// where the name cannot be encoded.
pub fn fresh_query(domain: &str) -> (r: Result<(u16, ArrayVec<u8, 512>), DnsError>)
    ensures
        match r {
            Ok((id, datagram)) => encode_name(domain.spec_bytes()) matches Ok(name)
                && datagram_octets(datagram) == query_wire(id, QueryType::A, name),
            Err(e) => encode_name(domain.spec_bytes()) == Err::<Seq<u8>, DnsError>(e),
        },
{
    let id = random_id();
    let datagram = build_query(id, QueryType::A, domain)?;
    Ok((id, datagram))
}

/// What a datagram is taken for as the response to the query with the
/// given transaction id: the message it holds, where its first two octets
/// are that id.
pub open spec fn response_to(id: u16, buf: Seq<u8>) -> Result<MessageView, DnsError> {
    if buf.len() < 2 {
        Err(DnsError::Truncated)
    } else if be16(buf[0], buf[1]) != id {
        Err(DnsError::TransactionMismatch)
    } else {
        message_at(buf, 0)
    }
}

/// Takes a datagram as the response to the query with the given
/// transaction id. A datagram under another id is rejected with
/// `TransactionMismatch` and never decoded.
pub fn accept_response(id: u16, response: &[u8]) -> (r: Result<Message, DnsError>)
    ensures
        match r {
            Ok(message) => {
                &&& response_to(id, response@) == Ok::<MessageView, DnsError>(message@)
                &&& message.header.id == id
                &&& message.answer@.len() == message.header.an_count
                &&& message.authority@.len() == message.header.ns_count
                &&& message.additional@.len() == message.header.ad_count
            },
            Err(e) => response_to(id, response@) == Err::<MessageView, DnsError>(e),
        },
{
    if response.len() < 2 {
        return Err(DnsError::Truncated);
    }
    let answered: u16 = response[0] as u16 * 256 + response[1] as u16;
    if answered != id {
        return Err(DnsError::TransactionMismatch);
    }
    decode_message(response)
}

/// A datagram whose transaction id is not that of the query is never
/// taken for the query's response; and the message that is taken for it
/// carries the query's id.
pub proof fn lemma_mismatch_rejected(id: u16, buf: Seq<u8>)
    ensures
        buf.len() >= 2 && be16(buf[0], buf[1]) != id ==> response_to(id, buf) == Err::<
            MessageView,
            DnsError,
        >(DnsError::TransactionMismatch),
        response_to(id, buf) matches Ok(message) ==> message.header.id == id,
{
}

/// Where a resolution stands.
#[derive(Debug, Clone, Copy, PartialEq, Eq, Structural)]
pub enum ResolverState {
    /// The first name server is being asked.
    Querying,
    /// A response carried answers: the resolution has ended with them.
    Answered,
    /// A response referred to another name server, which is asked next.
    Delegated,
    /// A response carried neither an answer nor a referral that could be
    /// followed: the resolution has ended without an address.
    Unresolved,
}

/// The addresses of the A records among the given records, in their order.
pub open spec fn a_addresses(records: Seq<RecordView>) -> Seq<[u8; 4]>
    decreases records.len(),
{
    if records.len() == 0 {
        Seq::empty()
    } else {
        let before = a_addresses(records.drop_last());
        match records.last().r_data {
            RDataView::A(address) => before.push(address),
            _ => before,
        }
    }
}

/// The address of the first A record among the given records.
pub open spec fn first_a(records: Seq<RecordView>) -> Option<[u8; 4]>
    decreases records.len(),
{
    if records.len() == 0 {
        None
    } else {
        match records[0].r_data {
            RDataView::A(address) => Some(address),
            _ => first_a(records.drop_first()),
        }
    }
}

/// The name server that a response without answers refers to: the first
/// address in its authority section, and else the first in its additional
/// section.
pub open spec fn referral(message: MessageView) -> Option<[u8; 4]> {
    match first_a(message.authority) {
        Some(address) => Some(address),
        None => first_a(message.additional),
    }
}

/// What a `Resolver` stands for.
pub struct ResolverView {
    /// Where the resolution stands.
    pub state: ResolverState,
    /// How many referrals have been followed.
    pub referrals: nat,
    /// The name server to ask next, while the state is `Delegated`.
    pub name_server: Option<[u8; 4]>,
    /// The addresses that were found, once the state is `Answered`.
    pub addresses: Seq<[u8; 4]>,
}

/// The resolution at its start: the first name server is being asked.
pub open spec fn initial() -> ResolverView {
    ResolverView {
        state: ResolverState::Querying,
        referrals: 0,
        name_server: None,
        addresses: Seq::empty(),
    }
}

/// Where a resolution stands after the response `message`.
///
/// A resolution that has ended stays as it is. Else a response with
/// answers ends it with the addresses among them. Else a referral is
/// followed, unless `MAX_REFERRALS` have been followed already. Else the
/// resolution ends without an address.
pub open spec fn step(resolver: ResolverView, message: MessageView) -> ResolverView {
    if resolver.state is Answered || resolver.state is Unresolved {
        resolver
    } else if message.answer.len() > 0 {
        ResolverView {
            state: ResolverState::Answered,
            referrals: resolver.referrals,
            name_server: None,
            addresses: a_addresses(message.answer),
        }
    } else if referral(message) is Some && resolver.referrals < MAX_REFERRALS {
        ResolverView {
            state: ResolverState::Delegated,
            referrals: resolver.referrals + 1,
            name_server: referral(message),
            addresses: Seq::empty(),
        }
    } else {
        ResolverView {
            state: ResolverState::Unresolved,
            referrals: resolver.referrals,
            name_server: None,
            addresses: Seq::empty(),
        }
    }
}

/// The address of the first A record among the given records.
pub fn first_address(records: &Vec<ResponseRecord>) -> (r: Option<[u8; 4]>)
    ensures
        r == first_a(record_views(records@)),
{
    let ghost views = record_views(records@);
    let mut i: usize = 0;
    proof {
        assert(views.skip(0) =~= views);
    }
    while i < records.len()
        invariant
            i <= records@.len(),
            views == record_views(records@),
            first_a(views) == first_a(views.skip(i as int)),
        decreases records@.len() - i,
    {
        proof {
            assert(views.skip(i as int).drop_first() =~= views.skip(i + 1));
            assert(views.skip(i as int)[0] == records@[i as int]@);
        }
        match &records[i].r_data {
            RData::A(address) => {
                return Some(*address);
            },
            _ => {},
        }
        i = i + 1;
    }
    proof {
        assert(views.skip(i as int) =~= Seq::<RecordView>::empty());
    }
    None
}

/// The addresses of the A records among the given records, in their order.
pub fn addresses_of(records: &Vec<ResponseRecord>) -> (r: Vec<[u8; 4]>)
    ensures
        r@ == a_addresses(record_views(records@)),
{
    let ghost views = record_views(records@);
    let mut found: Vec<[u8; 4]> = Vec::new();
    let mut i: usize = 0;
    proof {
        assert(views.take(0) =~= Seq::<RecordView>::empty());
    }
    while i < records.len()
        invariant
            i <= records@.len(),
            views == record_views(records@),
            found@ == a_addresses(views.take(i as int)),
        decreases records@.len() - i,
    {
        proof {
            assert(views.take(i + 1).drop_last() =~= views.take(i as int));
            assert(views.take(i + 1).last() == records@[i as int]@);
        }
        match &records[i].r_data {
            RData::A(address) => {
                found.push(*address);
            },
            _ => {},
        }
        i = i + 1;
    }
    proof {
        assert(views.take(i as int) =~= views);
    }
    found
}

/// One resolution: what has been decided so far, and what is to be done
/// next. The transport is not its business: whoever drives it sends the
/// queries and hands back the responses.
#[derive(Debug)]
pub struct Resolver {
    state: ResolverState,
    referrals: usize,
    name_server: Option<[u8; 4]>,
    addresses: Vec<[u8; 4]>,
}

impl View for Resolver {
    type V = ResolverView;

    closed spec fn view(&self) -> ResolverView {
        ResolverView {
            state: self.state,
            referrals: self.referrals as nat,
            name_server: self.name_server,
            addresses: self.addresses@,
        }
    }
}

impl Resolver {
    /// A resolution at its start.
    pub fn new() -> (resolver: Self)
        ensures
            resolver@ == initial(),
    {
        Self {
            state: ResolverState::Querying,
            referrals: 0,
            name_server: None,
            addresses: Vec::new(),
        }
    }

    /// Where the resolution stands.
    pub fn state(&self) -> (state: ResolverState)
        ensures
            state == self@.state,
    {
        self.state
    }

    /// Whether the resolution has ended, so that no name server is to be
    /// asked any more.
    pub fn is_finished(&self) -> (finished: bool)
        ensures
            finished == (self@.state is Answered || self@.state is Unresolved),
    {
        match self.state {
            ResolverState::Answered => true,
            ResolverState::Unresolved => true,
            _ => false,
        }
    }

    /// How many referrals have been followed.
    pub fn referrals(&self) -> (count: usize)
        ensures
            count == self@.referrals,
    {
        self.referrals
    }

    /// The name server that the last response referred to, which is to be
    /// asked next.
    pub fn name_server(&self) -> (address: Option<[u8; 4]>)
        ensures
            address == self@.name_server,
    {
        self.name_server
    }

    /// The addresses that were found.
    pub fn addresses(&self) -> (found: &Vec<[u8; 4]>)
        ensures
            found@ == self@.addresses,
    {
        &self.addresses
    }

    /// Takes the response of the name server that was asked last, and
    /// decides how the resolution goes on. Returns the new state.
    pub fn advance(&mut self, message: &Message) -> (state: ResolverState)
        ensures
            final(self)@ == step(old(self)@, message@),
            state == final(self)@.state,
    {
        if self.is_finished() {
            return self.state;
        }
        if message.answer.len() > 0 {
            self.addresses = addresses_of(&message.answer);
            self.name_server = None;
            self.state = ResolverState::Answered;
            return self.state;
        }
        let target = match first_address(&message.authority) {
            Some(address) => Some(address),
            None => first_address(&message.additional),
        };
        if target.is_some() && self.referrals < MAX_REFERRALS {
            self.referrals = self.referrals + 1;
            self.name_server = target;
            self.addresses = Vec::new();
            self.state = ResolverState::Delegated;
        } else {
            self.name_server = None;
            self.addresses = Vec::new();
            self.state = ResolverState::Unresolved;
        }
        self.state
    }
}

/// A response with answers ends the resolution at once: from its start, or
/// after a referral, the resolution is then answered with exactly the
/// addresses of that response's answers, no name server is left to be
/// asked, and no later response changes any of this.
pub proof fn lemma_answer_is_final(resolver: ResolverView, message: MessageView, later: MessageView)
    requires
        resolver.state is Querying || resolver.state is Delegated,
        message.answer.len() > 0,
    ensures
        step(resolver, message).state is Answered,
        step(resolver, message).addresses == a_addresses(message.answer),
        step(resolver, message).name_server is None,
        step(resolver, message).referrals == resolver.referrals,
        step(step(resolver, message), later) == step(resolver, message),
{
}

/// A resolution never follows more than `MAX_REFERRALS` referrals.
pub proof fn lemma_referrals_bounded(resolver: ResolverView, message: MessageView)
    requires
        resolver.referrals <= MAX_REFERRALS,
    ensures
        step(resolver, message).referrals <= MAX_REFERRALS,
{
}

} // verus!
