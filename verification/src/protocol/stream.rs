//! What the owner of a socket reports of it.

use vstd::prelude::*;

verus! {

/// What a read on the connection came to.
#[derive(Debug, PartialEq, Eq)]
pub enum ReadEvent {
    /// These bytes arrived.
    Data(Vec<u8>),
    /// The read returned no byte: the peer has closed.
    Closed,
    /// No byte arrived within the read window.
    TimedOut,
    /// The read failed.
    Failed,
}

} // verus!
