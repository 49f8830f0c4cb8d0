//! Messages exchanged between peers.

use crate::blocking::encoding::{Any, TYPEURL_ADDRESSBOOK, TYPEURL_ADDRESSBOOKREQUEST, TYPEURL_PEERHELLO};
use crate::blocking::types;
use vstd::prelude::*;

verus! {

broadcast use vstd::string::group_string_axioms;

/// A message from one peer to another.
#[derive(Debug, Clone, PartialEq)]
pub enum PeerMessage {
    Hello(types::PeerHello),
    AddressBookRequest,
    AddressBook(types::AddressBook),
}

/// The type URL under which a message of this kind travels.
pub open spec fn peer_message_type_url(msg: PeerMessage) -> Seq<char> {
    match msg {
        PeerMessage::Hello(_) => TYPEURL_PEERHELLO@,
        PeerMessage::AddressBookRequest => TYPEURL_ADDRESSBOOKREQUEST@,
        PeerMessage::AddressBook(_) => TYPEURL_ADDRESSBOOK@,
    }
}

impl PeerMessage {
    /// The type URL under which this message travels.
    pub fn type_url(&self) -> (r: String)
        ensures
            r@ == peer_message_type_url(*self),
    {
        match self {
            PeerMessage::Hello(_) => TYPEURL_PEERHELLO.to_string(),
            PeerMessage::AddressBookRequest => TYPEURL_ADDRESSBOOKREQUEST.to_string(),
            PeerMessage::AddressBook(_) => TYPEURL_ADDRESSBOOK.to_string(),
        }
    }

    /// Packs this message into an `Any` message, given the Protobuf encoding
    /// of its body.
    pub fn to_any(&self, body: Vec<u8>) -> (r: Any)
        ensures
            r.type_url@ == peer_message_type_url(*self),
            r.value@ == body@,
    {
        Any { type_url: self.type_url(), value: body }
    }
}

} // verus!
