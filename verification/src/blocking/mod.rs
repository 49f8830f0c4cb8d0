//! The single-threaded, blocking seed node.

pub mod encoding;
pub mod messages;
pub mod types;
pub mod events;
pub mod pubsub;
pub mod seed_node;
pub mod remote_peer;
