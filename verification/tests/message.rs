use dns_stub::message::decode_section;
use dns_stub::{
    decode_message, Decoder, DnsError, Domain, Header, Message, QueryClass, QueryType, RData,
    ResponseClass, ResponseRecord, ResponseType,
};

const QUESTION: [u8; 21] = [
    3, b'w', b'w', b'w', 7, b'e', b'x', b'a', b'm', b'p', b'l', b'e', 3, b'c', b'o', b'm', 0, 0, 1, 0,
    1,
];

fn header(id: u16, flags: u16, qd: u16, an: u16, ns: u16, ad: u16) -> Vec<u8> {
    Header { id, flags, qd_count: qd, an_count: an, ns_count: ns, ad_count: ad }.as_bytes().to_vec()
}

fn record(name: &[u8], type_: u16, class: u16, ttl: u32, rdata: &[u8]) -> Vec<u8> {
    record_with_length(name, type_, class, ttl, rdata.len() as u16, rdata)
}

fn record_with_length(
    name: &[u8],
    type_: u16,
    class: u16,
    ttl: u32,
    rd_length: u16,
    rdata: &[u8],
) -> Vec<u8> {
    let mut bytes = name.to_vec();
    bytes.extend_from_slice(&type_.to_be_bytes());
    bytes.extend_from_slice(&class.to_be_bytes());
    bytes.extend_from_slice(&ttl.to_be_bytes());
    bytes.extend_from_slice(&rd_length.to_be_bytes());
    bytes.extend_from_slice(rdata);
    bytes
}

fn message(an: u16, ns: u16, ad: u16, records: &[Vec<u8>]) -> Vec<u8> {
    let mut bytes = header(0x1000, 0x8180, 1, an, ns, ad);
    bytes.extend_from_slice(&QUESTION);
    for r in records {
        bytes.extend_from_slice(r);
    }
    bytes
}

fn name(text: &str) -> Domain {
    Domain::encode(text).unwrap()
}

#[test]
fn response_with_one_compressed_answer() {
    let bytes: [u8; 49] = [
        0x10, 0x00, 0x81, 0x80, 0x00, 0x01, 0x00, 0x01, 0x00, 0x00, 0x00, 0x00, 3, b'w', b'w', b'w',
        7, b'e', b'x', b'a', b'm', b'p', b'l', b'e', 3, b'c', b'o', b'm', 0, 0x00, 0x01, 0x00, 0x01,
        0xc0, 0x0c, 0x00, 0x01, 0x00, 0x01, 0x00, 0x00, 0x00, 0x02, 0x00, 0x04, 0x5d, 0xb8, 0xd8,
        0x22,
    ];
    let message = decode_message(&bytes).unwrap();
    assert_eq!(
        message.header,
        Header { id: 0x1000, flags: 0x8180, qd_count: 1, an_count: 1, ns_count: 0, ad_count: 0 }
    );
    assert_eq!(message.question.qname, name("www.example.com"));
    assert_eq!(message.question.qtype, QueryType::A);
    assert_eq!(message.question.qclass, QueryClass::IN);
    assert_eq!(message.answer.len(), 1);
    assert!(message.authority.is_empty());
    assert!(message.additional.is_empty());
    assert_eq!(
        message.answer[0],
        ResponseRecord {
            name: name("www.example.com"),
            type_: ResponseType::A,
            class: ResponseClass::IN,
            ttl: 2,
            rd_length: 4,
            r_data: RData::A([93, 184, 216, 34]),
        }
    );
    assert_eq!(message.answer[0].r_data, RData::A([93, 184, 216, 34]));
    assert_eq!(Message::decode(Decoder::new(&bytes)), Ok(message.clone()));
}

#[test]
fn sections_hold_as_many_records_as_the_header_counts() {
    let a = record(&[0xc0, 12], 1, 1, 60, &[1, 2, 3, 4]);
    let ns = record(&[0xc0, 16], 2, 1, 61, &[2, b'n', b's', 0xc0, 16]);
    let glue = record(&[2, b'n', b's', 0xc0, 16], 1, 1, 62, &[5, 6, 7, 8]);
    let v6 = record(
        &[0xc0, 12],
        28,
        1,
        63,
        &[0x20, 0x01, 0x0d, 0xb8, 0, 0, 0, 0, 0, 0, 0, 0, 0, 0, 0, 1],
    );
    let bytes = message(2, 1, 3, &[a.clone(), v6.clone(), ns, glue.clone(), glue.clone(), a]);
    let message = decode_message(&bytes).unwrap();
    assert_eq!(message.answer.len(), message.header.an_count as usize);
    assert_eq!(message.authority.len(), message.header.ns_count as usize);
    assert_eq!(message.additional.len(), message.header.ad_count as usize);
    assert_eq!(message.answer.len(), 2);
    assert_eq!(message.authority.len(), 1);
    assert_eq!(message.additional.len(), 3);
    assert_eq!(message.answer[0].r_data, RData::A([1, 2, 3, 4]));
    assert_eq!(message.answer[0].ttl, 60);
    assert_eq!(message.answer[1].r_data, RData::AAAA([0x2001, 0x0db8, 0, 0, 0, 0, 0, 1]));
    assert_eq!(message.answer[1].type_, ResponseType::AAAA);
    assert_eq!(message.answer[1].rd_length, 16);
    assert_eq!(message.authority[0].name, name("example.com"));
    assert_eq!(message.authority[0].type_, ResponseType::NS);
    assert_eq!(message.authority[0].rd_length, 5);
    assert_eq!(message.authority[0].r_data, RData::NS(name("ns.example.com")));
    assert_eq!(message.additional[0].name, name("ns.example.com"));
    assert_eq!(message.additional[0].r_data, RData::A([5, 6, 7, 8]));
    assert_eq!(message.additional[1], message.additional[0]);
    assert_eq!(message.additional[2].r_data, RData::A([1, 2, 3, 4]));
}

#[test]
fn canonical_name_data_is_measured_on_the_wire() {
    let alias = record(&[0xc0, 12], 5, 1, 5, &[4, b'h', b'o', b's', b't', 0xc0, 16]);
    let bytes = message(1, 0, 0, &[alias]);
    let message = decode_message(&bytes).unwrap();
    assert_eq!(message.answer[0].rd_length, 7);
    assert_eq!(message.answer[0].r_data, RData::CNAME(name("host.example.com")));

    // The expanded name has 18 octets, the data in the record 7.
    let expanded = record_with_length(&[0xc0, 12], 5, 1, 5, 18, &[4, b'h', b'o', b's', b't', 0xc0, 16]);
    let mut bytes = self::message(1, 0, 0, &[expanded]);
    bytes.extend_from_slice(&[0; 16]);
    assert_eq!(decode_message(&bytes), Err(DnsError::RdataLengthMismatch));
}

#[test]
fn data_length_must_match_what_the_data_takes() {
    let longer = record_with_length(&[0xc0, 12], 1, 1, 0, 5, &[1, 2, 3, 4, 5]);
    assert_eq!(decode_message(&message(1, 0, 0, &[longer])), Err(DnsError::RdataLengthMismatch));
    let shorter = record_with_length(&[0xc0, 12], 1, 1, 0, 3, &[1, 2, 3, 4]);
    assert_eq!(decode_message(&message(1, 0, 0, &[shorter])), Err(DnsError::RdataLengthMismatch));
    let zero = record_with_length(&[0xc0, 12], 1, 1, 0, 0, &[1, 2, 3, 4]);
    assert_eq!(decode_message(&message(1, 0, 0, &[zero])), Err(DnsError::RdataLengthMismatch));
    let v6 = record_with_length(&[0xc0, 12], 28, 1, 0, 4, &[0; 16]);
    assert_eq!(decode_message(&message(1, 0, 0, &[v6])), Err(DnsError::RdataLengthMismatch));
}

#[test]
fn trailing_octets_are_left_alone() {
    let a = record(&[0xc0, 12], 1, 1, 60, &[1, 2, 3, 4]);
    let mut bytes = message(1, 0, 0, &[a]);
    let expected = decode_message(&bytes).unwrap();
    bytes.extend_from_slice(&[0xff, 0x40, 0x00, 0xc0]);
    assert_eq!(decode_message(&bytes), Ok(expected));
}

#[test]
fn question_count_is_not_looked_at() {
    let mut bytes = header(7, 0, 0, 0, 0, 0);
    bytes.extend_from_slice(&QUESTION);
    let message = decode_message(&bytes).unwrap();
    assert_eq!(message.header.qd_count, 0);
    assert_eq!(message.question.qname, name("www.example.com"));
    let mut bytes = header(7, 0, 5, 0, 0, 0);
    bytes.extend_from_slice(&QUESTION);
    assert_eq!(decode_message(&bytes).unwrap().header.qd_count, 5);
}

#[test]
fn messages_that_end_early_are_truncated() {
    let a = record(&[0xc0, 12], 1, 1, 60, &[1, 2, 3, 4]);
    let whole = message(1, 1, 0, &[a.clone(), a.clone()]);
    assert!(decode_message(&whole).is_ok());
    for cut in 0..whole.len() {
        assert_eq!(decode_message(&whole[..cut]), Err(DnsError::Truncated), "cut at {}", cut);
    }
    assert_eq!(decode_message(&message(2, 0, 0, &[a.clone()])), Err(DnsError::Truncated));
    assert_eq!(decode_message(&message(0, 0, 1, &[])), Err(DnsError::Truncated));
}

#[test]
fn counts_beyond_the_room_are_rejected_before_any_record_is_read() {
    // The one record has a type that would be rejected if it were read.
    let odd = record(&[0xc0, 12], 99, 1, 60, &[1, 2, 3, 4]);
    assert_eq!(decode_message(&message(1, 0, 0, &[odd.clone()])), Err(DnsError::UnsupportedCode));
    assert_eq!(decode_message(&message(2, 0, 0, &[odd.clone()])), Err(DnsError::Truncated));
    assert_eq!(decode_message(&message(u16::MAX, 0, 0, &[odd.clone()])), Err(DnsError::Truncated));
    assert_eq!(
        decode_message(&message(0, u16::MAX, u16::MAX, &[odd.clone()])),
        Err(DnsError::Truncated)
    );
    // 16 octets are room for one record of 11 at least, not for two.
    let bytes = message(0, 0, 0, &[odd]);
    let mut decoder = Decoder::new(&bytes).clone_at_index(33).unwrap();
    assert_eq!(decode_section(&mut decoder, 2).err(), Some(DnsError::Truncated));
    assert_eq!(decode_section(&mut decoder, 1).err(), Some(DnsError::UnsupportedCode));
    assert_eq!(decode_section(&mut decoder, 0), Ok(vec![]));
    assert_eq!(decoder.current(), 33);
}

#[test]
fn unknown_codes_are_rejected() {
    let odd_type = record(&[0xc0, 12], 17, 1, 0, &[1, 2, 3, 4]);
    assert_eq!(decode_message(&message(1, 0, 0, &[odd_type])), Err(DnsError::UnsupportedCode));
    let odd_class = record(&[0xc0, 12], 1, 255, 0, &[1, 2, 3, 4]);
    assert_eq!(decode_message(&message(1, 0, 0, &[odd_class])), Err(DnsError::UnsupportedCode));
    let mut bytes = header(1, 0, 1, 0, 0, 0);
    bytes.extend_from_slice(&[1, b'a', 0, 0, 28, 0, 1]);
    assert_eq!(decode_message(&bytes), Err(DnsError::UnsupportedCode));
}

#[test]
fn records_without_a_known_layout_are_rejected() {
    let mx = record(&[0xc0, 12], 15, 1, 0, &[0, 10, 0xc0, 12]);
    assert_eq!(decode_message(&message(1, 0, 0, &[mx])), Err(DnsError::UnsupportedRecordType));
    let txt = record(&[0xc0, 12], 16, 1, 0, &[1, b'x']);
    assert_eq!(decode_message(&message(0, 1, 0, &[txt])), Err(DnsError::UnsupportedRecordType));
    let chaos_a = record(&[0xc0, 12], 1, 3, 0, &[1, 2, 3, 4]);
    assert_eq!(decode_message(&message(0, 0, 1, &[chaos_a])), Err(DnsError::UnsupportedRecordType));
    let hesiod_ns = record(&[0xc0, 12], 2, 4, 0, &[0]);
    assert_eq!(decode_message(&message(1, 0, 0, &[hesiod_ns])), Err(DnsError::UnsupportedRecordType));
}

#[test]
fn an_error_in_a_later_record_fails_the_whole_message() {
    let a = record(&[0xc0, 12], 1, 1, 60, &[1, 2, 3, 4]);
    let bad_label = record(&[0x80, 0], 1, 1, 60, &[1, 2, 3, 4]);
    assert_eq!(
        decode_message(&message(1, 1, 1, &[a.clone(), a.clone(), bad_label])),
        Err(DnsError::InvalidLabel)
    );
    let looping = record(&[0xc0, 49], 1, 1, 60, &[1, 2, 3, 4]);
    assert_eq!(
        decode_message(&message(2, 0, 0, &[a.clone(), looping])),
        Err(DnsError::PointerLoop)
    );
}

#[test]
fn data_decode_by_class_and_type() {
    let bytes = [10u8, 0, 0, 1, 0xff];
    let mut decoder = Decoder::new(&bytes);
    assert_eq!(
        RData::decode(ResponseType::A, ResponseClass::IN, &mut decoder),
        Ok(RData::A([10, 0, 0, 1]))
    );
    assert_eq!(decoder.current(), 4);
    assert_eq!(
        RData::decode(ResponseType::A, ResponseClass::IN, &mut decoder),
        Err(DnsError::Truncated)
    );
    assert_eq!(decoder.current(), 4);
    assert_eq!(
        RData::decode(ResponseType::AAAA, ResponseClass::IN, &mut Decoder::new(&[0; 15])),
        Err(DnsError::Truncated)
    );
    assert_eq!(
        RData::decode(ResponseType::SOA, ResponseClass::IN, &mut Decoder::new(&bytes)),
        Err(DnsError::UnsupportedRecordType)
    );
    assert_eq!(
        RData::decode(ResponseType::A, ResponseClass::CS, &mut Decoder::new(&bytes)),
        Err(DnsError::UnsupportedRecordType)
    );
    let host = [1, b'a', 0];
    assert_eq!(
        RData::decode(ResponseType::CNAME, ResponseClass::IN, &mut Decoder::new(&host)),
        Ok(RData::CNAME(name("a")))
    );
    assert_eq!(
        RData::decode(ResponseType::NS, ResponseClass::IN, &mut Decoder::new(&host)),
        Ok(RData::NS(name("a")))
    );
}

#[test]
fn record_decode_consumes_the_record() {
    let a = record(&[1, b'a', 0], 1, 1, 0x01020304, &[9, 8, 7, 6]);
    let mut bytes = a.clone();
    bytes.push(0x80);
    let mut decoder = Decoder::new(&bytes);
    let record = ResponseRecord::decode(&mut decoder).unwrap();
    assert_eq!(decoder.current(), a.len());
    assert_eq!(record.name, name("a"));
    assert_eq!(record.ttl, 0x01020304);
    assert_eq!(record.class, ResponseClass::IN);
    assert_eq!(record.r_data, RData::A([9, 8, 7, 6]));
    assert_eq!(ResponseRecord::decode(&mut decoder).err(), Some(DnsError::InvalidLabel));
    assert_eq!(decoder.current(), a.len());
}
