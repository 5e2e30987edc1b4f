//! The base worker trait.

use vstd::prelude::*;

use crate::error::Error;

verus! {

/// Base worker trait: lifecycle hooks for an actor on the worker bus.
///
/// Message handling is defined by each concrete worker as a verified
/// transition function from its state and an incoming message to its new
/// state and outgoing actions; the bus around it performs the actions.
pub trait Worker {
    /// The context handed to the lifecycle hooks.
    type Context;

    /// Initialisation behaviour.
    fn initialize(&mut self, context: &mut Self::Context) -> Result<(), Error>;

    /// Shutdown behaviour.
    fn shutdown(&mut self, context: &mut Self::Context) -> Result<(), Error>;
}

} // verus!
