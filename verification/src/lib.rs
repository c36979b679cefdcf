//! A minimal broadcast relay, written without any I/O of its own.
//!
//! Bytes that one connected peer sends are forwarded verbatim to every other
//! peer that is connected at that moment. The crate holds the decisions of
//! the relay; sockets, threads and the event channel belong to the program
//! that embeds it:
//!
//! * [`event`] names connections and the events that they raise;
//! * [`hub`] owns the registry of live connections and turns each event
//!   into the registry update and the writes that the event calls for;
//! * [`fanout`] walks the recipients of one payload, one write at a time,
//!   and keeps going when a write fails;
//! * [`worker`] is the life of one connection: announce, read, emit,
//!   take leave;
//! * [`trace`] states what holds over whole sequences of events;
//! * [`redact`] renders values that must not leak into status output.

pub mod event;
pub mod fanout;
pub mod hub;
pub mod redact;
pub mod trace;
pub mod worker;
