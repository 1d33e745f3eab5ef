use dns_stub::encoder::DATAGRAM_SIZE;
use dns_stub::header::HEADER_SIZE;
use dns_stub::{
    build_query, fresh_query, Decoder, DnsError, Domain, Encoder, Header, Query, QueryClass,
    QueryType,
};

#[test]
fn check_query_hex() {
    let query = build_query(0x3c5f, QueryType::A, "www.example.com").unwrap();
    assert_eq!(
        "3c5f0100000100000000000003777777076578616d706c6503636f6d0000010001",
        hex::encode(query),
    )
}

#[test]
fn build_query_carries_id_and_type() {
    let query = build_query(0xbeef, QueryType::MX, "a.bc").unwrap();
    assert_eq!(
        query.as_slice(),
        &[0xbe, 0xef, 1, 0, 0, 1, 0, 0, 0, 0, 0, 0, 1, b'a', 2, b'b', b'c', 0, 0, 15, 0, 1]
    );
    let all = build_query(0, QueryType::All, "a").unwrap();
    assert_eq!(all.as_slice(), &[0, 0, 1, 0, 0, 1, 0, 0, 0, 0, 0, 0, 1, b'a', 0, 0, 255, 0, 1]);
}

#[test]
fn build_query_rejects_names_that_cannot_be_encoded() {
    let too_long_label = "a".repeat(64);
    assert_eq!(
        build_query(1, QueryType::A, &too_long_label).err(),
        Some(DnsError::LabelTooLong)
    );
    let l63 = "a".repeat(63);
    let too_long_name = format!("{}.{}.{}.{}", l63, l63, l63, l63);
    assert_eq!(build_query(1, QueryType::A, &too_long_name).err(), Some(DnsError::NameTooLong));
    let longest = format!("{}.{}.{}.{}", l63, l63, l63, "b".repeat(61));
    assert_eq!(build_query(1, QueryType::A, &longest).unwrap().len(), 12 + 255 + 4);
}

#[test]
fn fresh_query_is_the_query_under_the_id_it_returns() {
    for _ in 0..16 {
        let (id, datagram) = fresh_query("www.example.com").unwrap();
        let expected = build_query(id, QueryType::A, "www.example.com").unwrap();
        assert_eq!(datagram, expected);
        assert_eq!(datagram[0], (id >> 8) as u8);
        assert_eq!(datagram[1], (id & 0xff) as u8);
    }
    assert_eq!(fresh_query(&"a".repeat(64)).err(), Some(DnsError::LabelTooLong));
}

#[test]
fn header_new_counts_nothing() {
    let header = Header::new(0x1234, 0x0100);
    assert_eq!(
        header,
        Header { id: 0x1234, flags: 0x0100, qd_count: 0, an_count: 0, ns_count: 0, ad_count: 0 }
    );
}

#[test]
fn header_is_six_big_endian_fields() {
    let header = Header {
        id: 0x0102,
        flags: 0x8180,
        qd_count: 0x0001,
        an_count: 0x0a0b,
        ns_count: 0xffff,
        ad_count: 0x0100,
    };
    let wire = header.as_bytes();
    assert_eq!(wire, [0x01, 0x02, 0x81, 0x80, 0x00, 0x01, 0x0a, 0x0b, 0xff, 0xff, 0x01, 0x00]);
    let mut decoder = Decoder::new(&wire);
    assert_eq!(Header::decode(&mut decoder), Ok(header));
    assert_eq!(decoder.current(), HEADER_SIZE);

    let mut encoder = Encoder::new();
    assert_eq!(header.encode(&mut encoder), Ok(()));
    assert_eq!(encoder.bytes().as_slice(), &wire);
}

#[test]
fn header_decode_needs_twelve_octets() {
    let short = [0u8; 11];
    let mut decoder = Decoder::new(&short);
    assert_eq!(Header::decode(&mut decoder), Err(DnsError::Truncated));
    assert_eq!(decoder.current(), 0);
}

#[test]
fn encoder_appends_until_it_is_full() {
    let mut encoder = Encoder::new();
    assert_eq!(encoder.len(), 0);
    assert_eq!(encoder.try_write_u16(0xabcd), Ok(()));
    assert_eq!(encoder.try_write_slice(&[1, 2, 3]), Ok(()));
    assert_eq!(encoder.len(), 5);
    assert_eq!(encoder.try_write_slice(&[0; 508]), Err(()));
    assert_eq!(encoder.len(), 5);
    assert_eq!(encoder.try_write_slice(&[9; 506]), Ok(()));
    assert_eq!(encoder.len(), DATAGRAM_SIZE - 1);
    assert_eq!(encoder.try_write_u16(7), Err(()));
    assert_eq!(encoder.len(), DATAGRAM_SIZE - 1);
    assert_eq!(encoder.try_write_slice(&[8]), Ok(()));
    assert_eq!(encoder.try_write_slice(&[8]), Err(()));
    assert_eq!(encoder.try_write_slice(&[]), Ok(()));
    let bytes = encoder.bytes();
    assert_eq!(bytes.len(), DATAGRAM_SIZE);
    assert_eq!(&bytes[..5], &[0xab, 0xcd, 1, 2, 3]);
    assert_eq!(&bytes[5..511], &[9; 506]);
    assert_eq!(bytes[511], 8);
}

#[test]
fn header_encode_fails_without_room() {
    let mut encoder = Encoder::new();
    encoder.try_write_slice(&[0; 501]).unwrap();
    let header = Header::new(1, 2);
    assert_eq!(header.encode(&mut encoder), Err(()));
    assert_eq!(encoder.len(), 501);
    let mut encoder = Encoder::new();
    encoder.try_write_slice(&[0; 500]).unwrap();
    assert_eq!(header.encode(&mut encoder), Ok(()));
    assert_eq!(encoder.len(), 512);
}

#[test]
fn question_is_name_type_and_class() {
    let question = Query {
        qname: Domain::encode("example.com").unwrap(),
        qtype: QueryType::NS,
        qclass: QueryClass::CH,
    };
    let mut encoder = Encoder::new();
    assert_eq!(question.encode(&mut encoder), Ok(()));
    let wire = encoder.bytes();
    assert_eq!(
        wire.as_slice(),
        &[7, b'e', b'x', b'a', b'm', b'p', b'l', b'e', 3, b'c', b'o', b'm', 0, 0, 2, 0, 3]
    );
    let mut decoder = Decoder::new(&wire);
    assert_eq!(Query::decode(&mut decoder), Ok(question.clone()));
    assert_eq!(decoder.current(), 17);
}

#[test]
fn question_encode_fails_whole_without_room() {
    let question = Query {
        qname: Domain::encode("example.com").unwrap(),
        qtype: QueryType::A,
        qclass: QueryClass::IN,
    };
    let mut encoder = Encoder::new();
    encoder.try_write_slice(&[0; 496]).unwrap();
    assert_eq!(question.encode(&mut encoder), Err(()));
    assert_eq!(encoder.len(), 496);
    let mut encoder = Encoder::new();
    encoder.try_write_slice(&[0; 495]).unwrap();
    assert_eq!(question.encode(&mut encoder), Ok(()));
    assert_eq!(encoder.len(), 512);
}

#[test]
fn question_with_unknown_codes_is_rejected() {
    let unknown_type = [1, b'a', 0, 0, 17, 0, 1];
    let mut decoder = Decoder::new(&unknown_type);
    assert_eq!(Query::decode(&mut decoder), Err(DnsError::UnsupportedCode));
    assert_eq!(decoder.current(), 0);
    let unknown_class = [1, b'a', 0, 0, 1, 0, 5];
    assert_eq!(Query::decode(&mut Decoder::new(&unknown_class)), Err(DnsError::UnsupportedCode));
    let short = [1, b'a', 0, 0, 1, 0];
    assert_eq!(Query::decode(&mut Decoder::new(&short)), Err(DnsError::Truncated));
    let no_type = [1, b'a', 0, 0];
    assert_eq!(Query::decode(&mut Decoder::new(&no_type)), Err(DnsError::Truncated));
}
