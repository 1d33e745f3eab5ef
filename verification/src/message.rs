//! Whole messages: header, question and the three sections of records.

use crate::decoder::Decoder;
use crate::error::DnsError;
use crate::header::{header_at, Header};
use crate::query::{query_at, Query, QueryView};
use crate::rr::{record_at, RecordView, ResponseRecord, MIN_RECORD_SIZE};
use vstd::prelude::*;

verus! {

/// One decoded response: the header, the one question, and the records of
/// the three sections in their order.
#[derive(Debug, PartialEq, Eq)]
pub struct Message {
    /// The header, as the sender wrote it.
    pub header: Header,
    /// The question that the response answers.
    pub question: Query,
    /// The records of the answer section.
    pub answer: Vec<ResponseRecord>,
    /// The records of the authority section.
    pub authority: Vec<ResponseRecord>,
    /// The records of the additional section.
    pub additional: Vec<ResponseRecord>,
}

/// What a `Message` stands for.
pub struct MessageView {
    /// The header.
    pub header: Header,
    /// The question.
    pub question: QueryView,
    /// The records of the answer section.
    pub answer: Seq<RecordView>,
    /// The records of the authority section.
    pub authority: Seq<RecordView>,
    /// The records of the additional section.
    pub additional: Seq<RecordView>,
}

/// What each of the records stands for, in order.
pub open spec fn record_views(records: Seq<ResponseRecord>) -> Seq<RecordView> {
    records.map_values(|record: ResponseRecord| record@)
}

impl View for Message {
    type V = MessageView;

    open spec fn view(&self) -> MessageView {
        MessageView {
            header: self.header,
            question: self.question@,
            answer: record_views(self.answer@),
            authority: record_views(self.authority@),
            additional: record_views(self.additional@),
        }
    }
}

/// The same records, in the same order.
fn clone_records(records: &Vec<ResponseRecord>) -> (copy: Vec<ResponseRecord>)
    ensures
        record_views(copy@) == record_views(records@),
{
    let mut copy: Vec<ResponseRecord> = Vec::new();
    let mut i: usize = 0;
    while i < records.len()
        invariant
            i <= records@.len(),
            copy@.len() == i,
            forall|k: int| 0 <= k < i ==> (#[trigger] copy@[k])@ == records@[k]@,
        decreases records@.len() - i,
    {
        copy.push(records[i].clone());
        i = i + 1;
    }
    assert(record_views(copy@) =~= record_views(records@));
    copy
}

impl Clone for Message {
    /// The same message.
    fn clone(&self) -> (copy: Self)
        ensures
            copy@ == self@,
    {
        Message {
            header: self.header,
            question: self.question.clone(),
            answer: clone_records(&self.answer),
            authority: clone_records(&self.authority),
            additional: clone_records(&self.additional),
        }
    }
}

/// The `count` records that follow each other from `pos` on.
pub open spec fn records_at(buf: Seq<u8>, pos: int, count: nat) -> Result<
    (Seq<RecordView>, int),
    DnsError,
>
    decreases count,
{
    if count == 0 {
        Ok((Seq::empty(), pos))
    } else {
        match records_at(buf, pos, (count - 1) as nat) {
            Err(e) => Err(e),
            Ok((before, last)) => match record_at(buf, last) {
                Err(e) => Err(e),
                Ok((record, end)) => Ok((before.push(record), end)),
            },
        }
    }
}

/// The section of `count` records at `pos`. The count comes from the
/// sender: one that claims more records than the rest of the message has
/// room for is rejected with `Truncated` before any record is read.
pub open spec fn section_at(buf: Seq<u8>, pos: int, count: nat) -> Result<
    (Seq<RecordView>, int),
    DnsError,
> {
    if count * MIN_RECORD_SIZE > buf.len() - pos {
        Err(DnsError::Truncated)
    } else {
        records_at(buf, pos, count)
    }
}

/// The message that starts at `pos`: the header, one question, and then as
/// many answer, authority and additional records as the header counts.
/// The header's count of questions is not looked at, and octets behind the
/// last record are left alone.
pub open spec fn message_at(buf: Seq<u8>, pos: int) -> Result<MessageView, DnsError> {
    match header_at(buf, pos) {
        Err(e) => Err(e),
        Ok((header, after_header)) => match query_at(buf, after_header) {
            Err(e) => Err(e),
            Ok((question, after_question)) => match section_at(
                buf,
                after_question,
                header.an_count as nat,
            ) {
                Err(e) => Err(e),
                Ok((answer, after_answer)) => match section_at(
                    buf,
                    after_answer,
                    header.ns_count as nat,
                ) {
                    Err(e) => Err(e),
                    Ok((authority, after_authority)) => match section_at(
                        buf,
                        after_authority,
                        header.ad_count as nat,
                    ) {
                        Err(e) => Err(e),
                        Ok((additional, _)) => Ok(
                            MessageView { header, question, answer, authority, additional },
                        ),
                    },
                },
            },
        },
    }
}

/// Where one of the first records of a section cannot be read, the section
/// cannot be read, and for the same reason.
pub proof fn lemma_records_fail(buf: Seq<u8>, pos: int, read: nat, count: nat)
    requires
        read < count,
        records_at(buf, pos, read) matches Ok((_, last)) && record_at(buf, last) is Err,
    ensures
        records_at(buf, pos, count) == Err::<(Seq<RecordView>, int), DnsError>(
            record_at(buf, records_at(buf, pos, read)->Ok_0.1)->Err_0,
        ),
    decreases count,
{
    if count > read + 1 {
        lemma_records_fail(buf, pos, read, (count - 1) as nat);
    }
}

/// A section that is read has as many records as were asked for.
pub proof fn lemma_records_count(buf: Seq<u8>, pos: int, count: nat)
    ensures
        records_at(buf, pos, count) matches Ok((records, _)) ==> records.len() == count,
    decreases count,
{
    if count > 0 {
        lemma_records_count(buf, pos, (count - 1) as nat);
    }
}

/// The sections of a message that is read hold exactly as many records as
/// its header counts for them.
pub proof fn lemma_counts_match(buf: Seq<u8>, pos: int)
    ensures
        message_at(buf, pos) matches Ok(message) ==> {
            &&& message.answer.len() == message.header.an_count
            &&& message.authority.len() == message.header.ns_count
            &&& message.additional.len() == message.header.ad_count
        },
{
    if let Ok((header, after_header)) = header_at(buf, pos) {
        if let Ok((_, after_question)) = query_at(buf, after_header) {
            lemma_records_count(buf, after_question, header.an_count as nat);
            if let Ok((_, after_answer)) = section_at(buf, after_question, header.an_count as nat) {
                lemma_records_count(buf, after_answer, header.ns_count as nat);
                if let Ok((_, after_authority)) = section_at(
                    buf,
                    after_answer,
                    header.ns_count as nat,
                ) {
                    lemma_records_count(buf, after_authority, header.ad_count as nat);
                }
            }
        }
    }
}

/// Reads the `count` records of one section. On an error nothing is
/// consumed.
pub fn decode_section(decoder: &mut Decoder, count: u16) -> (r: Result<
    Vec<ResponseRecord>,
    DnsError,
>)
    ensures
        final(decoder).bytes() == old(decoder).bytes(),
        match r {
            Ok(records) => {
                &&& section_at(old(decoder).bytes(), old(decoder).offset() as int, count as nat)
                    == Ok::<(Seq<RecordView>, int), DnsError>(
                    (record_views(records@), final(decoder).offset() as int),
                )
                &&& records@.len() == count
                &&& final(decoder).offset() >= old(decoder).offset()
            },
            Err(e) => {
                &&& section_at(old(decoder).bytes(), old(decoder).offset() as int, count as nat)
                    == Err::<(Seq<RecordView>, int), DnsError>(e)
                &&& final(decoder).offset() == old(decoder).offset()
            },
        },
{
    let ghost buf = decoder.bytes();
    let ghost start = decoder.offset() as int;
    let room = decoder.len() - decoder.current();
    if count as usize * MIN_RECORD_SIZE > room {
        return Err(DnsError::Truncated);
    }
    let mut cursor = *decoder;
    let mut records: Vec<ResponseRecord> = Vec::new();
    let mut i: u16 = 0;
    proof {
        assert(record_views(records@) =~= Seq::<RecordView>::empty());
    }
    while i < count
        invariant
            i <= count,
            cursor.bytes() == buf,
            old(decoder).bytes() == buf,
            old(decoder).offset() == start,
            *decoder == *old(decoder),
            count * MIN_RECORD_SIZE <= buf.len() - start,
            start <= cursor.offset(),
            records@.len() == i,
            records_at(buf, start, i as nat) == Ok::<(Seq<RecordView>, int), DnsError>(
                (record_views(records@), cursor.offset() as int),
            ),
        decreases count - i,
    {
        let ghost read = record_views(records@);
        match ResponseRecord::decode(&mut cursor) {
            Ok(record) => {
                records.push(record);
                proof {
                    assert(record_views(records@) =~= read.push(record@));
                }
            },
            Err(e) => {
                proof {
                    lemma_records_fail(buf, start, i as nat, count as nat);
                }
                return Err(e);
            },
        }
        i = i + 1;
    }
    *decoder = cursor;
    Ok(records)
}

impl Message {
    /// Reads a whole message from the cursor's position on. No part of a
    /// message that cannot be read whole is returned.
    ///
    /// The sections hold exactly as many records as the header counts for
    /// them.
    pub fn decode(decoder: Decoder) -> (r: Result<Self, DnsError>)
        ensures
            match r {
                Ok(message) => {
                    &&& message_at(decoder.bytes(), decoder.offset() as int) == Ok::<
                        MessageView,
                        DnsError,
                    >(message@)
                    &&& message.answer@.len() == message.header.an_count
                    &&& message.authority@.len() == message.header.ns_count
                    &&& message.additional@.len() == message.header.ad_count
                },
                Err(e) => message_at(decoder.bytes(), decoder.offset() as int) == Err::<
                    MessageView,
                    DnsError,
                >(e),
            },
    {
        let mut cursor = decoder;
        let header = Header::decode(&mut cursor)?;
        let question = Query::decode(&mut cursor)?;
        let answer = decode_section(&mut cursor, header.an_count)?;
        let authority = decode_section(&mut cursor, header.ns_count)?;
        let additional = decode_section(&mut cursor, header.ad_count)?;
        Ok(Self { header, question, answer, authority, additional })
    }
}

/// Reads the message that the octets hold.
pub fn decode_message(bytes: &[u8]) -> (r: Result<Message, DnsError>)
    ensures
        match r {
            Ok(message) => {
                &&& message_at(bytes@, 0) == Ok::<MessageView, DnsError>(message@)
                &&& message.answer@.len() == message.header.an_count
                &&& message.authority@.len() == message.header.ns_count
                &&& message.additional@.len() == message.header.ad_count
            },
            Err(e) => message_at(bytes@, 0) == Err::<MessageView, DnsError>(e),
        },
{
    Message::decode(Decoder::new(bytes))
}

} // verus!
