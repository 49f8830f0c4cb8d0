use reactor_experiments::blocking::encoding::{
    check_message_len, decode_length_delimiter, encode_length_delimiter, read_any,
    read_peer_message, write_any, Any, FrameReadError, MessageReaderError, MessageWriterError,
    ReceivedPeerMessage, LENGTH_DELIMITER_LEN, MAX_MESSAGE_LEN, TYPEURL_ADDRESSBOOK,
    TYPEURL_ADDRESSBOOKREQUEST, TYPEURL_PEERHELLO,
};
use reactor_experiments::blocking::messages::PeerMessage;
use reactor_experiments::blocking::types::{AddressBook, PeerAddr, PeerHello};
use reactor_experiments::ip::IpAddr;

#[test]
fn test_length_delimiter_encoding() {
    let expected: Vec<u8> = vec![0x34, 0x12];
    assert_eq!(expected, encode_length_delimiter(4660));
}

#[test]
fn test_length_delimiter_decoding() {
    let delim: [u8; LENGTH_DELIMITER_LEN] = [0x34, 0x12];
    assert_eq!(4660, decode_length_delimiter(&delim));
}

#[test]
fn test_any_readwrite() {
    let orig_msg = Any {
        type_url: "sometype".to_string(),
        value: vec![0x12, 0x34, 0x56, 0x78],
    };
    let buf = write_any(&orig_msg).unwrap();
    // read the message back out
    let (decoded_msg, _) = read_any(&buf).unwrap();
    // check that they're exactly the same
    assert_eq!(orig_msg, decoded_msg);
}

#[test]
fn delimiter_round_trips() {
    for len in [0usize, 1, 255, 256, 4660, MAX_MESSAGE_LEN, 65535] {
        assert_eq!(decode_length_delimiter(&encode_length_delimiter(len)), len);
    }
    // only the low two bytes are written
    assert_eq!(encode_length_delimiter(65536 + 7), [7, 0]);
    assert_eq!(decode_length_delimiter(&[0xff, 0xff]), 65535);
}

#[test]
fn write_any_frames_the_encoding() {
    let msg = Any { type_url: "t".to_string(), value: vec![] };
    let buf = write_any(&msg).unwrap();
    // field 1 (type URL): key 0x0a, length 1, the byte 't'
    assert_eq!(buf, vec![3, 0, 0x0a, 1, b't']);
}

#[test]
fn write_any_refuses_empty_messages() {
    let msg = Any { type_url: String::new(), value: vec![] };
    assert_eq!(write_any(&msg), Err(MessageWriterError::EmptyMessage));
}

#[test]
fn write_any_refuses_large_messages() {
    let msg = Any { type_url: "big".to_string(), value: vec![7; MAX_MESSAGE_LEN] };
    assert_eq!(write_any(&msg), Err(MessageWriterError::MessageTooLarge));
    let small = Any { type_url: String::new(), value: vec![7; MAX_MESSAGE_LEN - 3] };
    assert_eq!(write_any(&small).unwrap().len(), MAX_MESSAGE_LEN + 2);
}

#[test]
fn read_any_errors() {
    assert_eq!(read_any(&[]), Err(FrameReadError::UnexpectedEof));
    assert_eq!(read_any(&[5]), Err(FrameReadError::UnexpectedEof));
    assert_eq!(
        read_any(&[0, 0, 1, 2]),
        Err(FrameReadError::Reader(MessageReaderError::EmptyMessage))
    );
    assert_eq!(
        read_any(&[0x01, 0x28]),
        Err(FrameReadError::Reader(MessageReaderError::MessageTooLarge))
    );
    assert_eq!(read_any(&[3, 0, 0x0a, 1]), Err(FrameReadError::UnexpectedEof));
    // key 0x0f names wire type 7, which does not exist
    assert!(matches!(
        read_any(&[1, 0, 0x0f]),
        Err(FrameReadError::Reader(MessageReaderError::ParseError(_)))
    ));
}

#[test]
fn read_any_reads_one_frame_and_leaves_the_rest() {
    let first = Any { type_url: "a".to_string(), value: vec![1, 2] };
    let second = Any { type_url: "b".to_string(), value: vec![] };
    let mut buf = write_any(&first).unwrap();
    let first_len = buf.len();
    buf.extend(write_any(&second).unwrap());
    let (m1, used1) = read_any(&buf).unwrap();
    assert_eq!(m1, first);
    assert_eq!(used1, first_len);
    let (m2, used2) = read_any(&buf[used1..]).unwrap();
    assert_eq!(m2, second);
    assert_eq!(used1 + used2, buf.len());
}

#[test]
fn check_message_len_bounds() {
    assert_eq!(check_message_len(0), Err(MessageReaderError::EmptyMessage));
    assert_eq!(check_message_len(1), Ok(()));
    assert_eq!(check_message_len(MAX_MESSAGE_LEN), Ok(()));
    assert_eq!(check_message_len(MAX_MESSAGE_LEN + 1), Err(MessageReaderError::MessageTooLarge));
}

#[test]
fn peer_messages_travel_under_their_type_urls() {
    let hello = PeerMessage::Hello(PeerHello { id: "abcd".to_string() });
    assert_eq!(hello.type_url(), TYPEURL_PEERHELLO);
    assert_eq!(PeerMessage::AddressBookRequest.type_url(), TYPEURL_ADDRESSBOOKREQUEST);
    let book = PeerMessage::AddressBook(AddressBook {
        addrs: vec![PeerAddr { id: "abcd".to_string(), ip: IpAddr::v4(127, 0, 0, 1), port: 8001 }],
    });
    assert_eq!(book.type_url(), TYPEURL_ADDRESSBOOK);
    let any = book.to_any(vec![1, 2, 3]);
    assert_eq!(any, Any { type_url: "AddressBook".to_string(), value: vec![1, 2, 3] });
}

#[test]
fn read_peer_message_sorts_by_type_url() {
    let req = Any { type_url: "AddressBookRequest".to_string(), value: vec![] };
    assert_eq!(read_peer_message(req), Ok(ReceivedPeerMessage::AddressBookRequest));
    let book = Any { type_url: "AddressBook".to_string(), value: vec![9, 8] };
    assert_eq!(read_peer_message(book), Ok(ReceivedPeerMessage::AddressBook(vec![9, 8])));
    let hello = Any { type_url: "PeerHello".to_string(), value: vec![7] };
    assert_eq!(read_peer_message(hello), Ok(ReceivedPeerMessage::Hello(vec![7])));
    let other = Any { type_url: "Ping".to_string(), value: vec![] };
    assert_eq!(
        read_peer_message(other),
        Err(MessageReaderError::UnrecognizedType("Ping".to_string()))
    );
}

// A hello with ID "abcd", written and read back: its Protobuf body is the
// string field 1, "abcd".
#[test]
fn hello_frame_round_trip() {
    let body: Vec<u8> = vec![0x0a, 0x04, b'a', b'b', b'c', b'd'];
    let msg = PeerMessage::Hello(PeerHello { id: "abcd".to_string() });
    let buf = write_any(&msg.to_any(body.clone())).unwrap();
    let (any, used) = read_any(&buf).unwrap();
    assert_eq!(used, buf.len());
    assert_eq!(read_peer_message(any), Ok(ReceivedPeerMessage::Hello(body)));
}

#[test]
fn peer_message_frame_round_trip() {
    let msg = PeerMessage::AddressBookRequest;
    let buf = write_any(&msg.to_any(vec![])).unwrap();
    let (any, _) = read_any(&buf).unwrap();
    assert_eq!(read_peer_message(any), Ok(ReceivedPeerMessage::AddressBookRequest));
}

#[test]
fn ipv4_addresses_are_big_endian() {
    assert_eq!(IpAddr::v4(127, 0, 0, 1), IpAddr::V4(0x7f000001));
    assert_eq!(IpAddr::v4(192, 168, 1, 10), IpAddr::V4(0xc0a8010a));
}
