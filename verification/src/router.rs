//! A local router worker: pops the next hop off a message's onward route
//! and tells the bus where to deliver the message next.

use vstd::prelude::*;

use crate::error::Error;
use crate::routing::Address;
use crate::worker::Worker;

verus! {

/// The conventional bus address of the router worker.
pub fn router_address() -> (r: String)
    ensures
        r@ == "router"@,
{
    "router".to_owned()
}

/// An error from the routing layer.
#[derive(Clone, Copy, Debug, PartialEq, Eq, Structural)]
pub enum RouterError {
    /// The message carries no onward route.
    NoRoute,
    /// A registry key is already taken.
    KeyInUse,
    /// The router cannot continue.
    Stop,
    /// No registry entry under this key.
    NoSuchKey,
}

/// An address a router can be asked to route towards.
#[derive(Clone, Debug, PartialEq, Eq)]
pub enum RouteableAddress {
    /// A local worker address.
    Local(Vec<u8>),
}

/// One hop of a router-level route.
#[derive(Clone, Debug, PartialEq, Eq)]
pub struct RouterAddress {
    /// Which kind of address this is; local addresses are type 0.
    pub address_type: u8,
    /// The raw address bytes.
    pub address: Vec<u8>,
}

impl RouteableAddress {
    /// The router-level form of this address.
    pub open spec fn spec_to_router_address(self) -> RouterAddress {
        match self {
            RouteableAddress::Local(v) => RouterAddress { address_type: 0, address: v },
        }
    }

    /// Executable counterpart of [`Self::spec_to_router_address`].
    pub fn to_router_address(self) -> (r: RouterAddress)
        ensures
            r == self.spec_to_router_address(),
    {
        match self {
            RouteableAddress::Local(v) => RouterAddress { address_type: 0, address: v },
        }
    }
}

/// The router-level form of a worker bus address.
pub fn routeable_from_address(a: Address) -> (r: RouteableAddress)
    ensures
        r == RouteableAddress::Local(a.inner),
{
    RouteableAddress::Local(a.inner)
}

/// An ordered list of router-level hops.
#[derive(Clone, Debug, PartialEq, Eq)]
pub struct RouterRoute {
    /// The hops, first to travel first.
    pub addrs: Vec<RouterAddress>,
}

/// A message moved by the router: where it still has to go, where replies
/// should travel, and the payload.
#[derive(Clone, Debug, PartialEq, Eq)]
pub struct RouterMessage {
    /// The hops still ahead of the message.
    pub onward_route: RouterRoute,
    /// The hops a reply should take, collected along the way.
    pub return_route: RouterRoute,
    /// The message payload.
    pub payload: Vec<u8>,
}

impl RouterMessage {
    /// An empty message: no routes, no payload.
    pub fn new() -> (r: Self)
        ensures
            r.onward_route.addrs@ == Seq::<RouterAddress>::empty(),
            r.return_route.addrs@ == Seq::<RouterAddress>::empty(),
            r.payload@ == Seq::<u8>::empty(),
    {
        RouterMessage {
            onward_route: RouterRoute { addrs: Vec::new() },
            return_route: RouterRoute { addrs: Vec::new() },
            payload: Vec::new(),
        }
    }

    /// Append a hop to the onward route.
    pub fn onward_address(&mut self, a: RouteableAddress)
        ensures
            final(self).onward_route.addrs@ == old(self).onward_route.addrs@.push(
                a.spec_to_router_address(),
            ),
            final(self).return_route == old(self).return_route,
            final(self).payload == old(self).payload,
    {
        let hop = a.to_router_address();
        self.onward_route.addrs.push(hop);
    }

    /// Append a hop to the return route.
    pub fn return_address(&mut self, a: RouteableAddress)
        ensures
            final(self).return_route.addrs@ == old(self).return_route.addrs@.push(
                a.spec_to_router_address(),
            ),
            final(self).onward_route == old(self).onward_route,
            final(self).payload == old(self).payload,
    {
        let hop = a.to_router_address();
        self.return_route.addrs.push(hop);
    }
}

/// The message a router worker accepts: a message to route, and optionally
/// the address of the sender, to be recorded on the return route.
#[derive(Clone, Debug, PartialEq, Eq)]
pub enum RouteMessage {
    /// Route the message; record the sender on the return route if given.
    Route(RouterMessage, Option<Address>),
}

/// The router worker. Its whole behaviour is the [`Router::route`]
/// transition: the bus delivers what `route` hands back.
pub struct Router {}

impl Router {
    /// Decide where a message goes next.
    ///
    /// Fails with `NoRoute` when the message has no onward hops. Otherwise
    /// pops the first onward hop, appends the sender (when given) to the
    /// return route, and hands back the hop together with the updated
    /// message for the bus to deliver there.
    pub fn route(msg: RouteMessage) -> (r: Result<(RouterAddress, RouterMessage), RouterError>)
        ensures
            match msg {
                RouteMessage::Route(inner, sender) => {
                    if inner.onward_route.addrs@.len() == 0 {
                        r == Err::<(RouterAddress, RouterMessage), RouterError>(RouterError::NoRoute)
                    } else {
                        r matches Ok((hop, m)) && hop == inner.onward_route.addrs@[0]
                            && m.onward_route.addrs@ == inner.onward_route.addrs@.subrange(
                            1,
                            inner.onward_route.addrs@.len() as int,
                        ) && m.payload == inner.payload && (match sender {
                            Some(a) => m.return_route.addrs@ == inner.return_route.addrs@.push(
                                RouteableAddress::Local(a.inner).spec_to_router_address(),
                            ),
                            None => m.return_route == inner.return_route,
                        })
                    }
                },
            },
    {
        match msg {
            RouteMessage::Route(mut m, address) => {
                if m.onward_route.addrs.len() == 0 {
                    return Err(RouterError::NoRoute);
                }
                let next_hop = m.onward_route.addrs.remove(0);
                match address {
                    Some(a) => {
                        m.return_address(routeable_from_address(a));
                    },
                    None => {},
                }
                Ok((next_hop, m))
            },
        }
    }
}

impl Worker for Router {
    type Context = ();

    fn initialize(&mut self, _context: &mut ()) -> Result<(), Error> {
        Ok(())
    }

    fn shutdown(&mut self, _context: &mut ()) -> Result<(), Error> {
        Ok(())
    }
}

} // verus!
