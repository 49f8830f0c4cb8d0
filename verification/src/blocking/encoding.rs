//! Wire format for peer messages: each message is a Protobuf `Any` value,
//! preceded by a fixed-size, little-endian length delimiter.

use vstd::prelude::*;

verus! {

broadcast use vstd::string::group_string_axioms;

/// Declares `prost::DecodeError`, the error that a failed Protobuf decode
/// reports.
#[verifier::external_type_specification]
#[verifier::external_body]
pub struct ExDecodeError(prost::DecodeError);

/// A Protobuf `Any` message: a type URL naming the kind of message, and its
/// encoded body.
#[derive(Debug, Clone, PartialEq)]
pub struct Any {
    pub type_url: String,
    pub value: Vec<u8>,
}

impl View for Any {
    type V = (Seq<char>, Seq<u8>);

    open spec fn view(&self) -> (Seq<char>, Seq<u8>) {
        (self.type_url@, self.value@)
    }
}

/// Errors that arise while reading a message from the wire.
#[derive(Debug, PartialEq)]
pub enum MessageReaderError {
    ParseError(prost::DecodeError),
    MessageTooLarge,
    EmptyMessage,
    UnrecognizedType(String),
}

/// Errors that arise while writing a message to the wire.
#[derive(Debug, Clone, PartialEq)]
pub enum MessageWriterError {
    EmptyMessage,
    MessageTooLarge,
}

/// The Protobuf encoding that `prost` gives an `Any` message with the given
/// type URL and body.
pub uninterp spec fn any_encoding(type_url: Seq<char>, value: Seq<u8>) -> Seq<u8>;

/// What `prost` decodes from the given bytes as an `Any` message, if they
/// decode at all.
pub uninterp spec fn any_decoding(bytes: Seq<u8>) -> Option<(Seq<char>, Seq<u8>)>;

/// Encodes `msg` through `prost::Message::encode_to_vec` on
/// `prost_types::Any`.
///
/// Claims: the result is the Protobuf encoding named by `any_encoding`, and
/// it is empty exactly when both fields are empty (proto3 leaves fields that
/// hold their default value out of the encoding, and every field that is
/// written takes at least one byte).
#[verifier::external_body]
fn encode_any(msg: &Any) -> (bytes: Vec<u8>)
    ensures
        bytes@ == any_encoding(msg.type_url@, msg.value@),
        bytes@.len() == 0 <==> (msg.type_url@.len() == 0 && msg.value@.len() == 0),
{
    let any = prost_types::Any { type_url: msg.type_url.clone(), value: msg.value.clone() };
    prost::Message::encode_to_vec(&any)
}

/// Decodes an `Any` message through `prost::Message::decode` on
/// `prost_types::Any`.
///
/// Claims: the result is the decoding named by `any_decoding`, an error
/// exactly when that is `None`; and bytes that `prost` produced by encoding
/// an `Any` message decode back to that message.
#[verifier::external_body]
fn decode_any(bytes: &[u8]) -> (res: Result<Any, prost::DecodeError>)
    ensures
        match res {
            Ok(msg) => any_decoding(bytes@) == Some(msg@),
            Err(_) => any_decoding(bytes@) is None,
        },
        res matches Ok(msg) ==> forall|type_url: Seq<char>, value: Seq<u8>|
            #[trigger] any_encoding(type_url, value) == bytes@ ==> msg@ == (type_url, value),
        (exists|type_url: Seq<char>, value: Seq<u8>| #[trigger] any_encoding(type_url, value) == bytes@) ==> res is Ok,
{
    match <prost_types::Any as prost::Message>::decode(bytes) {
        Ok(any) => Ok(Any { type_url: any.type_url, value: any.value }),
        Err(e) => Err(e),
    }
}

/// The type URL of a `PeerHello` message.
pub const TYPEURL_PEERHELLO: &'static str = "PeerHello";

/// The type URL of an `AddressBook` message.
pub const TYPEURL_ADDRESSBOOK: &'static str = "AddressBook";

/// The type URL of an `AddressBookRequest` message.
pub const TYPEURL_ADDRESSBOOKREQUEST: &'static str = "AddressBookRequest";

/// Message sizes are limited to 10kB.
pub const MAX_MESSAGE_LEN: usize = 10240;

/// The number of bytes in the length delimiter.
pub const LENGTH_DELIMITER_LEN: usize = 2;

/// The value of a two-byte little-endian length delimiter.
pub open spec fn delimiter_value(lo: u8, hi: u8) -> nat {
    (lo + 256 * hi) as nat
}

/// Reads the message length from a length delimiter.
pub fn decode_length_delimiter(buf: &[u8; LENGTH_DELIMITER_LEN]) -> (len: usize)
    ensures
        len == delimiter_value(buf@[0], buf@[1]),
{
    let lo = buf[0];
    let hi = buf[1];
    lo as usize + 256 * (hi as usize)
}

/// Writes the low two bytes of `len`, least significant first.
pub fn encode_length_delimiter(len: usize) -> (delim: [u8; LENGTH_DELIMITER_LEN])
    ensures
        delim@ == seq![(len % 256) as u8, ((len / 256) % 256) as u8],
{
    let lo = (len % 256) as u8;
    let hi = ((len / 256) % 256) as u8;
    [lo, hi]
}

/// The two delimiter bytes that `encode_length_delimiter` writes for `len`.
pub open spec fn delimiter_bytes(len: nat) -> Seq<u8> {
    seq![(len % 256) as u8, ((len / 256) % 256) as u8]
}

/// Decoding the delimiter written for `len` gives back `len` modulo 2^16.
pub proof fn lemma_delimiter_roundtrip(len: nat)
    ensures
        delimiter_value(delimiter_bytes(len)[0], delimiter_bytes(len)[1]) == len % 65536,
        len < 65536 ==> delimiter_value(delimiter_bytes(len)[0], delimiter_bytes(len)[1]) == len,
{
    let lo = len % 256;
    let hi = (len / 256) % 256;
    assert(len % 65536 == lo + 256 * hi) by (nonlinear_arith)
        requires
            lo == len % 256,
            hi == (len / 256) % 256,
    ;
}

/// Encoding the length that a delimiter holds gives back that delimiter.
pub proof fn lemma_delimiter_bytes_of_value(lo: u8, hi: u8)
    ensures
        delimiter_bytes(delimiter_value(lo, hi)) == seq![lo, hi],
{
    let v = delimiter_value(lo, hi);
    assert(v % 256 == lo && (v / 256) % 256 == hi) by (nonlinear_arith)
        requires
            v == lo + 256 * hi,
            0 <= lo < 256,
            0 <= hi < 256,
    ;
    assert(delimiter_bytes(v) =~= seq![lo, hi]);
}

/// A frame on the wire: the delimiter for the payload's length, then the
/// payload.
pub open spec fn frame(payload: Seq<u8>) -> Seq<u8> {
    delimiter_bytes(payload.len()) + payload
}

/// Serialises `msg` and frames it with its length delimiter. Empty
/// encodings and encodings over `MAX_MESSAGE_LEN` bytes are refused.
pub fn write_any(msg: &Any) -> (res: Result<Vec<u8>, MessageWriterError>)
    ensures
        ({
            let enc = any_encoding(msg.type_url@, msg.value@);
            &&& enc.len() == 0 <==> res == Err::<Vec<u8>, MessageWriterError>(
                MessageWriterError::EmptyMessage)
            &&& enc.len() > MAX_MESSAGE_LEN <==> res == Err::<Vec<u8>, MessageWriterError>(
                MessageWriterError::MessageTooLarge)
            &&& res matches Ok(bytes) ==> bytes@ == frame(enc)
        }),
        res is Ok <==> (msg.type_url@.len() > 0 || msg.value@.len() > 0) && any_encoding(
            msg.type_url@,
            msg.value@,
        ).len() <= MAX_MESSAGE_LEN,
{
    let buf = encode_any(msg);
    let msg_len = buf.len();
    if msg_len == 0 {
        return Err(MessageWriterError::EmptyMessage);
    }
    if msg_len > MAX_MESSAGE_LEN {
        return Err(MessageWriterError::MessageTooLarge);
    }
    let delim = encode_length_delimiter(msg_len);
    let mut out: Vec<u8> = Vec::with_capacity(LENGTH_DELIMITER_LEN + msg_len);
    out.push(delim[0]);
    out.push(delim[1]);
    let mut i: usize = 0;
    while i < msg_len
        invariant
            msg_len == buf@.len(),
            i <= msg_len,
            out@ == delimiter_bytes(msg_len as nat) + buf@.subrange(0, i as int),
        decreases msg_len - i,
    {
        out.push(buf[i]);
        i = i + 1;
        assert(buf@.subrange(0, i as int) == buf@.subrange(0, i - 1).push(buf@[i - 1]));
    }
    assert(buf@.subrange(0, msg_len as int) == buf@);
    Ok(out)
}

/// Why a frame could not be read from a buffer.
#[derive(Debug, PartialEq)]
pub enum FrameReadError {
    /// The buffer ended before the frame did.
    UnexpectedEof,
    /// The frame is malformed.
    Reader(MessageReaderError),
}

/// Copies `buf[start..end]` into a new vector.
fn copy_range(buf: &[u8], start: usize, end: usize) -> (out: Vec<u8>)
    requires
        start <= end <= buf@.len(),
    ensures
        out@ == buf@.subrange(start as int, end as int),
{
    let mut out: Vec<u8> = Vec::with_capacity(end - start);
    let mut i = start;
    while i < end
        invariant
            start <= i <= end <= buf@.len(),
            out@ == buf@.subrange(start as int, i as int),
        decreases end - i,
    {
        out.push(buf[i]);
        i = i + 1;
        assert(buf@.subrange(start as int, i as int) == buf@.subrange(start as int, i - 1).push(
            buf@[i - 1],
        ));
    }
    out
}

/// Checks a message length read from a delimiter: zero-length messages and
/// messages over `MAX_MESSAGE_LEN` bytes are refused.
pub fn check_message_len(msg_len: usize) -> (res: Result<(), MessageReaderError>)
    ensures
        msg_len == 0 ==> res == Err::<(), MessageReaderError>(MessageReaderError::EmptyMessage),
        msg_len > MAX_MESSAGE_LEN ==> res == Err::<(), MessageReaderError>(
            MessageReaderError::MessageTooLarge,
        ),
        0 < msg_len <= MAX_MESSAGE_LEN ==> res is Ok,
{
    if msg_len == 0 {
        return Err(MessageReaderError::EmptyMessage);
    }
    if msg_len > MAX_MESSAGE_LEN {
        return Err(MessageReaderError::MessageTooLarge);
    }
    Ok(())
}

/// Parses the body of a frame as a Protobuf `Any` message.
pub fn parse_any(msg_buf: &[u8]) -> (res: Result<Any, MessageReaderError>)
    ensures
        match res {
            Ok(msg) => any_decoding(msg_buf@) == Some(msg@),
            Err(e) => any_decoding(msg_buf@) is None && e is ParseError,
        },
        forall|type_url: Seq<char>, value: Seq<u8>|
            #[trigger] any_encoding(type_url, value) == msg_buf@ ==> (res matches Ok(msg) && msg@
                == (type_url, value)),
{
    match decode_any(msg_buf) {
        Ok(msg) => Ok(msg),
        Err(e) => Err(MessageReaderError::ParseError(e)),
    }
}

/// The outcome of reading one frame from the front of a buffer.
pub ghost enum ReadOutcome {
    /// A message (type URL, body) and the number of bytes its frame took.
    Message((Seq<char>, Seq<u8>), nat),
    /// The buffer ends before the frame does.
    Eof,
    /// The delimiter announces a zero-length message.
    Empty,
    /// The delimiter announces more than `MAX_MESSAGE_LEN` bytes.
    TooLarge,
    /// The body does not decode as an `Any` message.
    Unparsable,
}

/// What reading one frame from the front of `buf` gives.
pub open spec fn read_outcome(buf: Seq<u8>) -> ReadOutcome {
    if buf.len() < 2 {
        ReadOutcome::Eof
    } else {
        let len = delimiter_value(buf[0], buf[1]);
        if len == 0 {
            ReadOutcome::Empty
        } else if len > MAX_MESSAGE_LEN {
            ReadOutcome::TooLarge
        } else if buf.len() < 2 + len {
            ReadOutcome::Eof
        } else {
            match any_decoding(buf.subrange(2, 2 + len as int)) {
                Some(msg) => ReadOutcome::Message(msg, 2 + len),
                None => ReadOutcome::Unparsable,
            }
        }
    }
}

/// A buffer that begins with the frame of a payload of fewer than 2^16 bytes
/// holds that payload's length in its first two bytes and the payload right
/// after them; so reading it gives the payload's decoding, unless the payload
/// is empty or too large.
pub proof fn lemma_frame_prefix(payload: Seq<u8>, buf: Seq<u8>)
    requires
        frame(payload).is_prefix_of(buf),
        payload.len() < 65536,
    ensures
        buf.len() >= 2 + payload.len(),
        delimiter_value(buf[0], buf[1]) == payload.len(),
        buf.subrange(2, 2 + payload.len() as int) == payload,
        read_outcome(buf) == (if payload.len() == 0 {
            ReadOutcome::Empty
        } else if payload.len() > MAX_MESSAGE_LEN {
            ReadOutcome::TooLarge
        } else {
            match any_decoding(payload) {
                Some(msg) => ReadOutcome::Message(msg, payload.len() + 2),
                None => ReadOutcome::Unparsable,
            }
        }),
{
    let f = frame(payload);
    lemma_delimiter_roundtrip(payload.len());
    assert(buf[0] == f[0] && buf[1] == f[1]);
    assert forall|i: int| 0 <= i < payload.len() implies buf.subrange(
        2,
        2 + payload.len() as int,
    )[i] == payload[i] by {
        assert(buf[2 + i] == f[2 + i]);
    }
    assert(buf.subrange(2, 2 + payload.len() as int) =~= payload);
}

/// Whether `res` is what `read_any` owes for the given outcome.
pub open spec fn matches_outcome(
    res: Result<(Any, usize), FrameReadError>,
    outcome: ReadOutcome,
) -> bool {
    match outcome {
        ReadOutcome::Message(msg, used) => res matches Ok((m, u)) && m@ == msg && u == used,
        ReadOutcome::Eof => res == Err::<(Any, usize), FrameReadError>(FrameReadError::UnexpectedEof),
        ReadOutcome::Empty => res == Err::<(Any, usize), FrameReadError>(
            FrameReadError::Reader(MessageReaderError::EmptyMessage),
        ),
        ReadOutcome::TooLarge => res == Err::<(Any, usize), FrameReadError>(
            FrameReadError::Reader(MessageReaderError::MessageTooLarge),
        ),
        ReadOutcome::Unparsable => res matches Err(FrameReadError::Reader(MessageReaderError::ParseError(_))),
    }
}

/// Reads one length-delimited `Any` message from the front of `buf`,
/// returning it with the number of bytes consumed.
pub fn read_any(buf: &[u8]) -> (res: Result<(Any, usize), FrameReadError>)
    ensures
        matches_outcome(res, read_outcome(buf@)),
        forall|type_url: Seq<char>, value: Seq<u8>|
            frame(#[trigger] any_encoding(type_url, value)).is_prefix_of(buf@) && 0 < any_encoding(
                type_url,
                value,
            ).len() <= MAX_MESSAGE_LEN ==> (res matches Ok((msg, used)) && msg@ == (type_url, value)
                && used == any_encoding(type_url, value).len() + 2),
{
    proof {
        assert forall|type_url: Seq<char>, value: Seq<u8>|
            frame(#[trigger] any_encoding(type_url, value)).is_prefix_of(buf@) && 0 < any_encoding(
                type_url,
                value,
            ).len() <= MAX_MESSAGE_LEN implies ({
            let enc = any_encoding(type_url, value);
            &&& buf@.len() >= 2 + enc.len()
            &&& delimiter_value(buf@[0], buf@[1]) == enc.len()
            &&& buf@.subrange(2, 2 + enc.len() as int) == enc
        }) by {
            lemma_frame_prefix(any_encoding(type_url, value), buf@);
        }
    }
    if buf.len() < LENGTH_DELIMITER_LEN {
        return Err(FrameReadError::UnexpectedEof);
    }
    let len_buf: [u8; LENGTH_DELIMITER_LEN] = [buf[0], buf[1]];
    let msg_len = decode_length_delimiter(&len_buf);
    match check_message_len(msg_len) {
        Ok(()) => {},
        Err(e) => {
            return Err(FrameReadError::Reader(e));
        },
    }
    if buf.len() - LENGTH_DELIMITER_LEN < msg_len {
        return Err(FrameReadError::UnexpectedEof);
    }
    let msg_buf = copy_range(buf, LENGTH_DELIMITER_LEN, LENGTH_DELIMITER_LEN + msg_len);
    match parse_any(msg_buf.as_slice()) {
        Ok(msg) => Ok((msg, LENGTH_DELIMITER_LEN + msg_len)),
        Err(e) => Err(FrameReadError::Reader(e)),
    }
}

/// A peer message taken from an `Any` message: its kind, and the body that
/// still has to be decoded where the kind has one.
#[derive(Debug, Clone, PartialEq)]
pub enum ReceivedPeerMessage {
    /// The Protobuf encoding of a peer's hello.
    Hello(Vec<u8>),
    AddressBookRequest,
    /// The Protobuf encoding of an address book.
    AddressBook(Vec<u8>),
}

/// Sorts an incoming `Any` message by its type URL: hellos, address books
/// and address book requests are accepted; every other type URL is refused.
pub fn read_peer_message(msg: Any) -> (res: Result<ReceivedPeerMessage, MessageReaderError>)
    ensures
        msg.type_url@ == TYPEURL_PEERHELLO@ ==> (res matches Ok(ReceivedPeerMessage::Hello(body))
            && body@ == msg.value@),
        msg.type_url@ == TYPEURL_ADDRESSBOOKREQUEST@ ==> res == Ok::<
            ReceivedPeerMessage,
            MessageReaderError,
        >(ReceivedPeerMessage::AddressBookRequest),
        msg.type_url@ == TYPEURL_ADDRESSBOOK@ ==> (res matches Ok(
            ReceivedPeerMessage::AddressBook(body),
        ) && body@ == msg.value@),
        msg.type_url@ != TYPEURL_PEERHELLO@ && msg.type_url@ != TYPEURL_ADDRESSBOOKREQUEST@
            && msg.type_url@ != TYPEURL_ADDRESSBOOK@ ==> (res matches Err(
            MessageReaderError::UnrecognizedType(t),
        ) && t@ == msg.type_url@),
{
    proof {
        reveal_strlit("PeerHello");
        reveal_strlit("AddressBook");
        reveal_strlit("AddressBookRequest");
        assert(TYPEURL_PEERHELLO@ == "PeerHello"@);
        assert(TYPEURL_ADDRESSBOOK@ == "AddressBook"@);
        assert(TYPEURL_ADDRESSBOOKREQUEST@ == "AddressBookRequest"@);
        assert("AddressBook"@.len() != "AddressBookRequest"@.len());
        assert("PeerHello"@.len() != "AddressBookRequest"@.len());
        assert("PeerHello"@[0] != "AddressBook"@[0]);
    }
    if msg.type_url == TYPEURL_PEERHELLO.to_string() {
        Ok(ReceivedPeerMessage::Hello(msg.value))
    } else if msg.type_url == TYPEURL_ADDRESSBOOKREQUEST.to_string() {
        Ok(ReceivedPeerMessage::AddressBookRequest)
    } else if msg.type_url == TYPEURL_ADDRESSBOOK.to_string() {
        Ok(ReceivedPeerMessage::AddressBook(msg.value))
    } else {
        Err(MessageReaderError::UnrecognizedType(msg.type_url))
    }
}

} // verus!
