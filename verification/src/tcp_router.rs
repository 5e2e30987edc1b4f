//! The TCP message router: a registry from serialized socket addresses to
//! the worker that owns the corresponding connection, and the decision of
//! which worker a transport-bound message goes to.
//!
//! The registry itself is a `hashbrown` hash map held behind a small trusted
//! boundary: [`registry_entries`] names what the map holds, and each wrapped
//! method states what the `hashbrown` documentation promises of it.

use vstd::prelude::*;

use crate::router::{RouterError, RouterMessage};
use crate::routing::Address;
use crate::worker::Worker;
use crate::error::Error;

verus! {

/// The conventional bus address of the TCP router worker.
pub fn tcp_router_address() -> (r: String)
    ensures
        r@ == "tcp_router"@,
{
    "tcp_router".to_owned()
}

/// An error from the transport layer.
#[derive(Clone, Copy, Debug, PartialEq, Eq, Structural)]
pub enum TransportError {
    /// The connection to the peer is gone.
    ConnectionClosed,
}

/// Ask the TCP router to move a message towards its transport.
#[derive(Clone, Debug, PartialEq, Eq)]
pub enum RouteTransportMessage {
    /// Route the provided message.
    Route(RouterMessage),
}

/// What the TCP router asks a connection worker to do.
#[derive(Clone, Debug, PartialEq, Eq)]
pub enum TcpWorkerMessage {
    /// Send this message down the connection.
    SendMessage(RouterMessage),
    /// Read the next message from the connection.
    Receive,
}

/// A registry from raw address bytes to the worker address that owns the
/// connection. Backed by a `hashbrown` hash map.
#[verifier::external_body]
pub struct TcpRegistry {
    map: hashbrown::HashMap<Vec<u8>, Address>,
}

/// What a [`TcpRegistry`] holds: a map from key bytes to worker addresses.
pub uninterp spec fn registry_entries(r: TcpRegistry) -> Map<Seq<u8>, Address>;

impl TcpRegistry {
    /// Relies on hashbrown::HashMap::new: the new map is empty.
    #[verifier::external_body]
    pub(crate) fn new() -> (r: TcpRegistry)
        ensures
            forall|k: Seq<u8>| !registry_entries(r).contains_key(k),
    {
        TcpRegistry { map: hashbrown::HashMap::new() }
    }

    /// Relies on hashbrown::HashMap::contains_key: whether the map has an
    /// entry under this key.
    #[verifier::external_body]
    pub(crate) fn contains_key(&self, key: &Vec<u8>) -> (r: bool)
        ensures
            r == registry_entries(*self).contains_key(key@),
    {
        self.map.contains_key(key)
    }

    /// Relies on hashbrown::HashMap::insert: adds the entry and returns the
    /// value previously under the key, if any.
    #[verifier::external_body]
    pub(crate) fn insert(&mut self, key: Vec<u8>, value: Address) -> (r: Option<Address>)
        ensures
            registry_entries(*final(self)) == registry_entries(*old(self)).insert(key@, value),
            registry_entries(*old(self)).contains_key(key@) ==> r == Some(
                registry_entries(*old(self))[key@],
            ),
            !registry_entries(*old(self)).contains_key(key@) ==> r is None,
    {
        self.map.insert(key, value)
    }

    /// Relies on hashbrown::HashMap::get: the value under this key, if any.
    #[verifier::external_body]
    pub(crate) fn get(&self, key: &Vec<u8>) -> (r: Option<&Address>)
        ensures
            match r {
                Some(v) => registry_entries(*self).contains_key(key@) && *v == registry_entries(
                    *self,
                )[key@],
                None => !registry_entries(*self).contains_key(key@),
            },
    {
        self.map.get(key)
    }
}

/// The worker that routes transport-bound messages to the connection worker
/// registered for their next hop.
pub struct TcpMessageRouter {
    /// Which worker owns which serialized peer address.
    pub registry: TcpRegistry,
}

impl TcpMessageRouter {
    /// A router with an empty registry.
    pub fn new() -> (r: Self)
        ensures
            forall|k: Seq<u8>| !registry_entries(r.registry).contains_key(k),
    {
        TcpMessageRouter { registry: TcpRegistry::new() }
    }

    /// Register a connection worker under its own address bytes.
    ///
    /// Fails with `KeyInUse`, leaving the registry unchanged, when the key
    /// is already taken.
    pub fn register(&mut self, addr: Address) -> (r: Result<(), RouterError>)
        ensures
            registry_entries(old(self).registry).contains_key(addr.inner@) ==> r == Err::<
                (),
                RouterError,
            >(RouterError::KeyInUse) && registry_entries(final(self).registry) == registry_entries(
                old(self).registry,
            ),
            !registry_entries(old(self).registry).contains_key(addr.inner@) ==> r == Ok::<
                (),
                RouterError,
            >(()) && registry_entries(final(self).registry) == registry_entries(
                old(self).registry,
            ).insert(addr.inner@, addr),
    {
        let key = addr.to_vec();
        if self.registry.contains_key(&key) {
            return Err(RouterError::KeyInUse);
        }
        if self.registry.insert(key, addr).is_some() {
            return Err(RouterError::Stop);
        }
        Ok(())
    }

    /// Decide which connection worker a transport-bound message goes to.
    ///
    /// Pops the first onward hop, looks its bytes up in the registry and
    /// hands back the owning worker's address with the send order for it;
    /// the bus delivers the order and follows it with a
    /// [`TcpWorkerMessage::Receive`]. Fails with `NoRoute` when the message
    /// has no onward hops, and with `NoSuchKey` when no worker owns the hop.
    pub fn route_transport(&self, msg: RouteTransportMessage) -> (r: Result<
        (Address, TcpWorkerMessage),
        RouterError,
    >)
        ensures
            match msg {
                RouteTransportMessage::Route(inner) => {
                    if inner.onward_route.addrs@.len() == 0 {
                        r == Err::<(Address, TcpWorkerMessage), RouterError>(RouterError::NoRoute)
                    } else {
                        let key = inner.onward_route.addrs@[0].address@;
                        if registry_entries(self.registry).contains_key(key) {
                            r matches Ok((a, w)) && a.inner@ == registry_entries(
                                self.registry,
                            )[key].inner@ && (w matches TcpWorkerMessage::SendMessage(m)
                                && m.onward_route.addrs@ == inner.onward_route.addrs@.subrange(
                                1,
                                inner.onward_route.addrs@.len() as int,
                            ) && m.return_route == inner.return_route && m.payload == inner.payload)
                        } else {
                            r == Err::<(Address, TcpWorkerMessage), RouterError>(
                                RouterError::NoSuchKey,
                            )
                        }
                    }
                },
            },
    {
        match msg {
            RouteTransportMessage::Route(mut m) => {
                if m.onward_route.addrs.len() == 0 {
                    return Err(RouterError::NoRoute);
                }
                let tcp_addr = m.onward_route.addrs.remove(0);
                let key = tcp_addr.address;
                match self.registry.get(&key) {
                    None => Err(RouterError::NoSuchKey),
                    Some(addr) => Ok((addr.duplicate(), TcpWorkerMessage::SendMessage(m))),
                }
            },
        }
    }
}

impl Worker for TcpMessageRouter {
    type Context = ();

    fn initialize(&mut self, _context: &mut ()) -> Result<(), Error> {
        Ok(())
    }

    fn shutdown(&mut self, _context: &mut ()) -> Result<(), Error> {
        Ok(())
    }
}

} // verus!
