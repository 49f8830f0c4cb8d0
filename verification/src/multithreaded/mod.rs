//! The multi-threaded node: a Tendermint core loop, a dispatcher of peer
//! connections, and a gossiping address book.

pub mod concurrent_addr_book;
pub mod dispatcher;
pub mod tendermint;
