//! Core routing data types: addresses, routes and the generic transport
//! message that moves between workers and across transports.

use vstd::prelude::*;

use crate::compare::{bytes_eq, clone_bytes};

verus! {

/// An address on the worker bus.
#[derive(Clone, Debug, PartialEq, Eq)]
pub struct Address {
    /// The raw address bytes.
    pub inner: Vec<u8>,
}

impl Address {
    /// Wrap raw address bytes.
    pub fn new(inner: Vec<u8>) -> (r: Self)
        ensures
            r.inner == inner,
    {
        Address { inner }
    }

    /// The address whose bytes spell `s`.
    pub fn from_string(s: &String) -> (r: Self)
        ensures
            r.inner@ == vstd::utf8::encode_utf8(s@),
    {
        let bytes = s.as_str().as_bytes();
        Address { inner: vstd::slice::slice_to_vec(bytes) }
    }

    /// The raw address bytes, as an owned vector.
    pub fn to_vec(&self) -> (r: Vec<u8>)
        ensures
            r@ == self.inner@,
    {
        clone_bytes(&self.inner)
    }

    /// An owned copy of this address.
    pub fn duplicate(&self) -> (r: Self)
        ensures
            r.inner@ == self.inner@,
    {
        Address { inner: clone_bytes(&self.inner) }
    }

    /// Byte equality of two addresses.
    pub fn equals(&self, other: &Address) -> (r: bool)
        ensures
            r == (self.inner@ == other.inner@),
    {
        bytes_eq(self.inner.as_slice(), other.inner.as_slice())
    }
}

/// A protocol identifier carried by a transport message.
#[derive(Clone, Debug, PartialEq, Eq)]
pub struct ProtocolId {
    /// The protocol name; empty when no protocol is named.
    pub inner: String,
}

impl ProtocolId {
    /// The empty protocol identifier.
    pub fn none() -> (r: Self)
        ensures
            r.inner@ == Seq::<char>::empty(),
    {
        ProtocolId { inner: String::new() }
    }

    /// Wrap a protocol name.
    pub fn new(inner: String) -> (r: Self)
        ensures
            r.inner == inner,
    {
        ProtocolId { inner }
    }
}

/// An ordered list of addresses a message travels along.
#[derive(Clone, Debug, PartialEq, Eq)]
pub struct Route {
    /// The hops, first to travel first.
    pub addrs: Vec<Address>,
}

impl Route {
    /// The empty route.
    pub fn new() -> (r: Self)
        ensures
            r.addrs@ == Seq::<Address>::empty(),
    {
        Route { addrs: Vec::new() }
    }
}

/// A generic transport message.
///
/// This type is exposed so that third-party developers can build custom
/// transport channel routers; casual users never interact with it directly.
#[derive(Clone, Debug, PartialEq, Eq)]
pub struct TransportMessage {
    /// The transport protocol version.
    pub version: u8,
    /// Onward message route.
    pub onward_route: Route,
    /// Return message route, populated by the routers along the way.
    pub return_route: Route,
    /// A protocol identifier for this message.
    pub protocol: ProtocolId,
    /// The message payload.
    pub payload: Vec<u8>,
}

impl TransportMessage {
    /// A new `v1` transport message with an empty return route and no
    /// protocol.
    pub fn v1(onward_route: Route, payload: Vec<u8>) -> (r: Self)
        ensures
            r.version == 1,
            r.onward_route == onward_route,
            r.return_route.addrs@ == Seq::<Address>::empty(),
            r.protocol.inner@ == Seq::<char>::empty(),
            r.payload == payload,
    {
        Self::v1_protocol(onward_route, payload, ProtocolId::none())
    }

    /// A new `v1` transport message for a particular protocol.
    pub fn v1_protocol(onward_route: Route, payload: Vec<u8>, protocol: ProtocolId) -> (r: Self)
        ensures
            r.version == 1,
            r.onward_route == onward_route,
            r.return_route.addrs@ == Seq::<Address>::empty(),
            r.protocol == protocol,
            r.payload == payload,
    {
        TransportMessage {
            version: 1,
            onward_route,
            return_route: Route::new(),
            protocol,
            payload,
        }
    }
}

/// An example protocol payload.
#[derive(Clone, Debug, PartialEq, Eq)]
pub struct ProtocolPayload {
    /// Protocol identifier.
    pub proto: ProtocolId,
    /// Whatever data the protocol carries.
    pub data: Vec<u8>,
}

/// A command message for router implementations. A router implemented as a
/// worker should accept this message type.
#[derive(Clone, Debug, PartialEq, Eq)]
pub enum RouterMessage {
    /// Route the provided message towards its destination.
    Route(TransportMessage),
    /// Register a new client to this routing scope.
    Register {
        /// An accept scope for this client.
        accepts: Address,
        /// The client's own worker bus address.
        self_addr: Address,
    },
}

} // verus!
