use dns_stub::{Decoder, DnsError};

#[test]
fn new_decoder_starts_at_zero() {
    let buffer = [1u8, 2, 3];
    let decoder = Decoder::new(&buffer);
    assert_eq!(decoder.current(), 0);
    assert_eq!(decoder.len(), 3);
    assert_eq!(decoder.peek(), Some(1));
}

#[test]
fn peek_does_not_consume_and_pop_does() {
    let buffer = [7u8, 8];
    let mut decoder = Decoder::new(&buffer);
    assert_eq!(decoder.peek(), Some(7));
    assert_eq!(decoder.peek(), Some(7));
    assert_eq!(decoder.current(), 0);
    assert_eq!(decoder.pop(), Some(7));
    assert_eq!(decoder.current(), 1);
    assert_eq!(decoder.pop(), Some(8));
    assert_eq!(decoder.current(), 2);
    assert_eq!(decoder.peek(), None);
    assert_eq!(decoder.pop(), None);
    assert_eq!(decoder.current(), 2);
}

#[test]
fn empty_buffer_is_exhausted() {
    let buffer: [u8; 0] = [];
    let mut decoder = Decoder::new(&buffer);
    assert_eq!(decoder.peek(), None);
    assert_eq!(decoder.pop(), None);
    assert_eq!(decoder.read_slice(0), Ok(&buffer[..]));
    assert_eq!(decoder.read_slice(1), Err(DnsError::Truncated));
    assert_eq!(decoder.read_u16(), Err(DnsError::Truncated));
    assert_eq!(decoder.read_u32(), Err(DnsError::Truncated));
}

#[test]
fn read_slice_consumes_exactly_what_it_returns() {
    let buffer = [1u8, 2, 3, 4, 5];
    let mut decoder = Decoder::new(&buffer);
    assert_eq!(decoder.read_slice(2), Ok(&[1u8, 2][..]));
    assert_eq!(decoder.current(), 2);
    assert_eq!(decoder.read_slice(4), Err(DnsError::Truncated));
    assert_eq!(decoder.current(), 2);
    assert_eq!(decoder.read_slice(usize::MAX), Err(DnsError::Truncated));
    assert_eq!(decoder.read_slice(3), Ok(&[3u8, 4, 5][..]));
    assert_eq!(decoder.current(), 5);
    assert_eq!(decoder.read_slice(0), Ok(&[][..]));
}

#[test]
fn integers_are_big_endian() {
    let buffer = [0x12u8, 0x34, 0xde, 0xad, 0xbe, 0xef, 0xff, 0xff, 0xff, 0xff, 0xff, 0xff, 9];
    let mut decoder = Decoder::new(&buffer);
    assert_eq!(decoder.read_u16(), Ok(0x1234));
    assert_eq!(decoder.current(), 2);
    assert_eq!(decoder.read_u32(), Ok(0xdeadbeef));
    assert_eq!(decoder.current(), 6);
    assert_eq!(decoder.read_u16(), Ok(0xffff));
    assert_eq!(decoder.read_u32(), Ok(0xffffffff));
    assert_eq!(decoder.current(), 12);
    assert_eq!(decoder.read_u16(), Err(DnsError::Truncated));
    assert_eq!(decoder.read_u32(), Err(DnsError::Truncated));
    assert_eq!(decoder.current(), 12);
    assert_eq!(decoder.pop(), Some(9));
}

#[test]
fn clone_at_index_counts_from_the_start_of_the_message() {
    let buffer = [10u8, 11, 12, 13];
    let mut decoder = Decoder::new(&buffer);
    decoder.pop();
    decoder.pop();
    decoder.pop();
    let mut jumped = decoder.clone_at_index(1).unwrap();
    assert_eq!(jumped.current(), 1);
    assert_eq!(jumped.len(), 4);
    assert_eq!(jumped.pop(), Some(11));
    // The cursor that was jumped from stays where it was.
    assert_eq!(decoder.current(), 3);
    assert_eq!(decoder.peek(), Some(13));
    assert_eq!(decoder.clone_at_index(3).unwrap().peek(), Some(13));
    assert_eq!(decoder.clone_at_index(0).unwrap().peek(), Some(10));
}

#[test]
fn clone_at_index_outside_the_message_fails() {
    let buffer = [10u8, 11, 12, 13];
    let decoder = Decoder::new(&buffer);
    assert_eq!(decoder.clone_at_index(4).err(), Some(DnsError::Truncated));
    assert_eq!(decoder.clone_at_index(5).err(), Some(DnsError::Truncated));
    assert_eq!(decoder.clone_at_index(usize::MAX).err(), Some(DnsError::Truncated));
    let nothing: [u8; 0] = [];
    assert_eq!(Decoder::new(&nothing).clone_at_index(0).err(), Some(DnsError::Truncated));
}
