//! Connection identities and the events that connections raise.

use vstd::prelude::*;

verus! {

/// Identity of one live connection. The embedding program picks it when the
/// connection is accepted, and no two connections that are live at the same
/// time may share one.
pub type PeerId = u64;

/// What a connection worker tells the hub. `H` is the handle through which
/// the hub writes to the connection; each event carries one, so that the hub
/// can act on the event without looking anything up elsewhere.
#[derive(Clone, Debug, PartialEq, Eq)]
pub enum Event<H> {
    /// The connection is open.
    Connected { id: PeerId, handle: H },
    /// The connection has ended: its stream failed or reached its end.
    Disconnected { id: PeerId, handle: H },
    /// `payload` holds exactly the bytes of one successful read.
    DataReceived { id: PeerId, handle: H, payload: Vec<u8> },
}

impl<H> Event<H> {
    /// The connection that raised the event.
    pub open spec fn peer(self) -> PeerId {
        match self {
            Event::Connected { id, .. } => id,
            Event::Disconnected { id, .. } => id,
            Event::DataReceived { id, .. } => id,
        }
    }

    /// The handle that the event carries.
    pub open spec fn conn(self) -> H {
        match self {
            Event::Connected { handle, .. } => handle,
            Event::Disconnected { handle, .. } => handle,
            Event::DataReceived { handle, .. } => handle,
        }
    }

    /// The connection that raised the event.
    pub fn id(&self) -> (id: PeerId)
        ensures
            id == self.peer(),
    {
        match self {
            Event::Connected { id, .. } => *id,
            Event::Disconnected { id, .. } => *id,
            Event::DataReceived { id, .. } => *id,
        }
    }

    /// The handle that the event carries.
    pub fn handle(&self) -> (handle: &H)
        ensures
            *handle == self.conn(),
    {
        match self {
            Event::Connected { handle, .. } => handle,
            Event::Disconnected { handle, .. } => handle,
            Event::DataReceived { handle, .. } => handle,
        }
    }
}

} // verus!
