//! Verified core of a Tendermint seed-node experiment: the wire framing of
//! peer messages, the node's publish/subscribe registry, and the event-driven
//! state machines of the address books, dispatchers and node loops.

pub mod blocking;
pub mod ip;
pub mod vec_map;
pub mod channel;
pub mod nonblocking;
pub mod multithreaded;
