//! A ping/pong worker pair: pong echoes what it is sent, ping counts
//! upward, ignoring replays of rounds it has already passed.

use vstd::prelude::*;

use crate::error::Error;
use crate::worker::Worker;

verus! {

/// What the ping worker remembers between rounds.
struct State {
    last: usize,
}

/// The ping worker: sends the next round number whenever the echoed round
/// catches up with the highest round it has seen.
pub struct Ping {
    state: State,
}

impl Ping {
    /// The highest round this worker has seen.
    pub closed spec fn spec_last(&self) -> usize {
        self.state.last
    }
}

impl Default for Ping {
    /// A ping worker that has seen no rounds.
    fn default() -> (r: Self)
        ensures
            r.spec_last() == 0,
    {
        Ping { state: State { last: 0 } }
    }
}

impl Ping {
    /// Handle one echoed round number: when it is stale (a replay of a
    /// round below the highest seen) keep the state and stay silent; else
    /// answer with the next round number and remember it. The caller sends
    /// the answer back along the message's return route.
    pub fn process(&mut self, previous: usize) -> (r: Option<usize>)
        requires
            previous < usize::MAX,
        ensures
            old(self).spec_last() > previous ==> r is None && final(self).spec_last()
                == old(self).spec_last(),
            old(self).spec_last() <= previous ==> r == Some((previous + 1) as usize)
                && final(self).spec_last() == previous + 1,
    {
        if self.state.last > previous {
            None
        } else {
            let next = previous + 1;
            self.state = State { last: next };
            Some(next)
        }
    }
}

impl Worker for Ping {
    type Context = ();

    fn initialize(&mut self, _context: &mut ()) -> Result<(), Error> {
        Ok(())
    }

    fn shutdown(&mut self, _context: &mut ()) -> Result<(), Error> {
        Ok(())
    }
}

/// The pong worker: echoes every message back along its return route.
pub struct Pong {}

impl Pong {
    /// The body of the reply to `message`: the message itself.
    pub fn process(message: String) -> (r: String)
        ensures
            r == message,
    {
        message
    }
}

impl Worker for Pong {
    type Context = ();

    fn initialize(&mut self, _context: &mut ()) -> Result<(), Error> {
        Ok(())
    }

    fn shutdown(&mut self, _context: &mut ()) -> Result<(), Error> {
        Ok(())
    }
}

} // verus!
