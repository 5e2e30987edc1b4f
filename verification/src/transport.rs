//! The transport-side connection interface.
//!
//! A connection moves raw bytes to and from a peer. Implementations live at
//! the application edge, where the sockets are; the library states only the
//! shape of the capability.

use vstd::prelude::*;

use crate::tcp_router::TransportError;

verus! {

/// A byte connection to a peer.
pub trait Connection {
    /// Establish the connection.
    fn connect(&mut self) -> Result<(), TransportError>;

    /// Send `message`, returning how many bytes went out.
    fn send(&mut self, message: &[u8]) -> Result<usize, TransportError>;

    /// Receive into `message`, returning how many bytes came in.
    fn receive(&mut self, message: &mut Vec<u8>) -> Result<usize, TransportError>;
}

} // verus!
