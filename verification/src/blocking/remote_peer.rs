//! Errors of the connection to a remote peer; the connection itself, with
//! its reading and writing threads, is network I/O.

use vstd::prelude::*;

verus! {

#[derive(Debug, Clone, PartialEq)]
pub enum RemotePeerError {
    SendFailed(String),
    ReceiveFailed(String),
    Disconnected,
}

} // verus!
