//! The single-threaded, non-blocking seed node: components that each run as
//! a finite state machine driven by events, composed by a routing table.

pub mod address_book;
pub mod types;
pub mod acceptor;
pub mod dispatcher;
pub mod seed_node;
