//! The life of one connection.
//!
//! A worker announces its connection to the hub, then reads from the stream
//! and turns every read into an event: data while bytes arrive, a
//! disconnect when the stream fails or ends. The reads and the sends belong
//! to the embedding program; the worker is told how each of them went and
//! decides what follows.

use vstd::prelude::*;
use vstd::slice::{slice_subrange, slice_to_vec};
use crate::event::{Event, PeerId};

verus! {

/// The most bytes that one read takes from the stream. The number only sets
/// the size of the chunks in which data travels.
pub const READ_CHUNK: usize = 64;

/// Why a worker has stopped.
#[derive(Clone, Copy, PartialEq, Eq, Debug, Structural)]
pub enum StopReason {
    /// The connect event could not be handed to the hub.
    HubUnreachable,
    /// A read returned no bytes: the stream has reached its end.
    StreamClosed,
    /// A read failed.
    ReadFailed,
}

/// Where a worker stands.
#[derive(Clone, Copy, PartialEq, Eq, Debug, Structural)]
pub enum Phase {
    /// The connect event is on its way to the hub.
    Announcing,
    /// The hub knows of the connection, and the worker reads.
    Reading,
    /// The worker is done, and reads no more.
    Stopped { reason: StopReason },
}

/// The phase after the embedding program has tried to hand an event to the
/// hub.
///
/// Only the connect event must arrive: if it does not, the worker stops.
/// Every later event is sent on a best-effort basis, so its loss changes
/// nothing.
pub open spec fn after_send(phase: Phase, delivered: bool) -> Phase {
    match phase {
        Phase::Announcing => if delivered {
            Phase::Reading
        } else {
            Phase::Stopped { reason: StopReason::HubUnreachable }
        },
        _ => phase,
    }
}

/// The phase of a reading worker after a read that ended as `outcome`
/// says: it goes on reading as long as bytes arrive.
pub open spec fn after_read(outcome: Result<usize, ()>) -> Phase {
    match outcome {
        Ok(n) => if n > 0 {
            Phase::Reading
        } else {
            Phase::Stopped { reason: StopReason::StreamClosed }
        },
        Err(_) => Phase::Stopped { reason: StopReason::ReadFailed },
    }
}

/// Whether `event` is what the worker of `id` raises for a read into
/// `buffer` that ended as `outcome` says.
///
/// A read of `n > 0` bytes gives a data event whose payload is the first
/// `n` bytes of the buffer and nothing else. A read of no bytes and a failed
/// read give a disconnect.
pub open spec fn reports<H>(
    event: Event<H>,
    id: PeerId,
    handle: H,
    buffer: Seq<u8>,
    outcome: Result<usize, ()>,
) -> bool {
    match outcome {
        Ok(n) => if n > 0 {
            &&& event matches Event::DataReceived { id: from, handle: through, payload }
            &&& from == id
            &&& through == handle
            &&& payload@ == buffer.take(n as int)
        } else {
            event == (Event::Disconnected { id, handle })
        },
        Err(_) => event == (Event::Disconnected { id, handle }),
    }
}

/// A worker as contracts see it.
pub struct WorkerState {
    /// The connection that the worker serves.
    pub id: PeerId,
    /// Where the worker stands.
    pub phase: Phase,
}

/// The worker of one connection.
pub struct Worker {
    id: PeerId,
    phase: Phase,
}

impl View for Worker {
    type V = WorkerState;

    closed spec fn view(&self) -> WorkerState {
        WorkerState { id: self.id, phase: self.phase }
    }
}

impl Worker {
    /// Starts the worker of connection `id`. The event is the connect event,
    /// which the embedding program hands to the hub before anything else.
    pub fn start<H>(id: PeerId, handle: H) -> (out: (Worker, Event<H>))
        ensures
            out.0@.id == id,
            out.0@.phase == Phase::Announcing,
            out.1 == (Event::Connected { id, handle }),
    {
        (Worker { id, phase: Phase::Announcing }, Event::Connected { id, handle })
    }

    /// Tells the worker whether the event it raised last has reached the
    /// hub's channel.
    pub fn sent(&mut self, delivered: bool)
        ensures
            final(self)@.id == old(self)@.id,
            final(self)@.phase == after_send(old(self)@.phase, delivered),
    {
        match self.phase {
            Phase::Announcing => {
                if delivered {
                    self.phase = Phase::Reading;
                } else {
                    self.phase = Phase::Stopped { reason: StopReason::HubUnreachable };
                }
            },
            _ => {},
        }
    }

    /// Tells a reading worker how a read into `buffer` went, `Ok` with the
    /// number of bytes read or `Err`, and returns the event to raise for it.
    /// `handle` is the handle that the event is to carry.
    pub fn on_read<H>(&mut self, handle: H, buffer: &[u8], outcome: Result<usize, ()>) -> (event:
        Event<H>)
        requires
            old(self)@.phase == Phase::Reading,
            outcome matches Ok(n) ==> n <= buffer@.len(),
        ensures
            final(self)@.id == old(self)@.id,
            final(self)@.phase == after_read(outcome),
            reports(event, old(self)@.id, handle, buffer@, outcome),
    {
        match outcome {
            Ok(n) => {
                if n > 0 {
                    let payload = slice_to_vec(slice_subrange(buffer, 0, n));
                    Event::DataReceived { id: self.id, handle, payload }
                } else {
                    self.phase = Phase::Stopped { reason: StopReason::StreamClosed };
                    Event::Disconnected { id: self.id, handle }
                }
            },
            Err(_) => {
                self.phase = Phase::Stopped { reason: StopReason::ReadFailed };
                Event::Disconnected { id: self.id, handle }
            },
        }
    }

    /// The connection that the worker serves.
    pub fn id(&self) -> (id: PeerId)
        ensures
            id == self@.id,
    {
        self.id
    }

    /// Where the worker stands.
    pub fn phase(&self) -> (phase: Phase)
        ensures
            phase == self@.phase,
    {
        self.phase
    }

    /// Whether the worker wants another read.
    pub fn is_reading(&self) -> (reading: bool)
        ensures
            reading == (self@.phase == Phase::Reading),
    {
        match self.phase {
            Phase::Reading => true,
            _ => false,
        }
    }
}

/// The order of a worker's events. The connect comes from [`Worker::start`]
/// alone. A read never raises a connect, and what it raises names the
/// worker's own connection and carries the handle it was given. It raises
/// data exactly if the worker goes on reading, and a disconnect exactly if
/// the worker stops. A stopped worker stays stopped whatever becomes of its
/// events, and reads no more: so a disconnect is the last event of its
/// worker, and there is one at most.
pub proof fn lemma_event_order<H>(
    event: Event<H>,
    id: PeerId,
    handle: H,
    buffer: Seq<u8>,
    outcome: Result<usize, ()>,
    delivered: bool,
)
    requires
        reports(event, id, handle, buffer, outcome),
    ensures
        !(event is Connected),
        event.peer() == id,
        event.conn() == handle,
        event is DataReceived <==> after_read(outcome) == Phase::Reading,
        event is Disconnected <==> after_read(outcome) is Stopped,
        after_read(outcome) is Stopped ==> after_send(after_read(outcome), delivered) == after_read(
            outcome,
        ),
{
}

} // verus!
