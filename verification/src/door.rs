//! The door-opening exchange of the credentials walk-through: a requester
//! asks a door to open, and the door answers once the requester's
//! credential checks out.

use vstd::prelude::*;

verus! {

/// A request to open the door.
#[derive(Clone, Copy, Debug, PartialEq, Eq, Structural)]
pub struct OpenDoorMessage {

}

/// The door's answer once it has opened.
#[derive(Clone, Copy, Debug, PartialEq, Eq, Structural)]
pub struct DoorIsOpenedMessage {

}

/// The door controller: it answers an [`OpenDoorMessage`] exactly when the
/// requester's credential checked out. Checking the credential and the
/// message passing happen at the application edge; this is the decision.
pub struct DoorController {}

impl DoorController {
    /// The reply to an open request, given whether the requester's
    /// credential checked out: answer only then, stay silent (and keep the
    /// door shut) otherwise.
    pub fn process(credential_ok: bool) -> (r: Option<DoorIsOpenedMessage>)
        ensures
            r is Some <==> credential_ok,
    {
        if credential_ok {
            Some(DoorIsOpenedMessage {  })
        } else {
            None
        }
    }
}

} // verus!
