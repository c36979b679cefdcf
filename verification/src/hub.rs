//! The broadcast hub: the one owner of the registry of live connections.
//!
//! The hub takes events one at a time, in the order in which they arrive.
//! [`Hub::process`] applies one event to the registry and says what the
//! embedding program has to do about it: announce a peer that joined or
//! left, or carry out a [`FanOut`]. Nothing else may change the registry.

use std::collections::HashMap;
use vstd::prelude::*;
use vstd::std_specs::hash::spec_keys_iter;
use vstd::std_specs::iter::IteratorSpec;
use crate::event::{Event, PeerId};
use crate::fanout::FanOut;

verus! {

/// The registry after the hub has processed `event`.
///
/// A connect enters the peer with the handle of the event; if the peer was
/// registered already, the new handle takes the place of the old one. A
/// disconnect removes the peer, and does nothing where the peer is not
/// registered. Data leaves the registry as it is.
pub open spec fn apply<H>(registry: Map<PeerId, H>, event: Event<H>) -> Map<PeerId, H> {
    match event {
        Event::Connected { id, handle } => registry.insert(id, handle),
        Event::Disconnected { id, .. } => registry.remove(id),
        Event::DataReceived { .. } => registry,
    }
}

/// The peers that a payload from `sender` goes to: all registered peers but
/// `sender`.
pub open spec fn recipients_of<H>(registry: Map<PeerId, H>, sender: PeerId) -> Set<PeerId> {
    registry.dom().remove(sender)
}

/// What the embedding program does after the hub has processed an event.
#[derive(Debug)]
pub enum Reaction {
    /// Announce that the peer has connected.
    Joined { id: PeerId },
    /// Announce that the peer has disconnected.
    Left { id: PeerId },
    /// Write the payload to each recipient of the fan-out.
    Broadcast { fan_out: FanOut },
}

/// Whether `reaction` is a right answer to `event`, processed when the
/// registry was `registry`.
///
/// For data it is a fan-out on which nothing has been attempted yet, whose
/// payload is the payload of the event, byte for byte, and whose recipients
/// are the peers of [`recipients_of`], each exactly once. The order of the
/// recipients is left open.
pub open spec fn answers<H>(registry: Map<PeerId, H>, event: Event<H>, reaction: Reaction) -> bool {
    match event {
        Event::Connected { id, .. } => reaction == (Reaction::Joined { id }),
        Event::Disconnected { id, .. } => reaction == (Reaction::Left { id }),
        Event::DataReceived { id, payload, .. } => {
            &&& reaction matches Reaction::Broadcast { fan_out }
            &&& fan_out@.is_fresh()
            &&& fan_out@.payload == payload@
            &&& fan_out@.recipients.no_duplicates()
            &&& fan_out@.recipients.to_set() == recipients_of(registry, id)
        },
    }
}

/// The hub. `H` is the type of the handles through which peers are written
/// to; the hub stores them and never looks inside.
pub struct Hub<H> {
    registry: HashMap<PeerId, H>,
}

impl<H> View for Hub<H> {
    type V = Map<PeerId, H>;

    /// The registry: the handle of each live connection, by identity.
    closed spec fn view(&self) -> Map<PeerId, H> {
        self.registry@
    }
}

impl<H> Hub<H> {
    /// A hub with nobody registered.
    pub fn new() -> (hub: Self)
        ensures
            hub@ == Map::<PeerId, H>::empty(),
    {
        Hub { registry: HashMap::new() }
    }

    /// Processes one event: brings the registry up to date and tells the
    /// embedding program what to do.
    pub fn process(&mut self, event: Event<H>) -> (reaction: Reaction)
        ensures
            final(self)@ == apply(old(self)@, event),
            answers(old(self)@, event, reaction),
    {
        match event {
            Event::Connected { id, handle } => {
                self.registry.insert(id, handle);
                Reaction::Joined { id }
            },
            Event::Disconnected { id, handle: _ } => {
                self.registry.remove(&id);
                Reaction::Left { id }
            },
            Event::DataReceived { id, handle: _, payload } => {
                let recipients = self.recipients(id);
                Reaction::Broadcast { fan_out: FanOut::new(recipients, payload) }
            },
        }
    }

    /// The peers that a payload from `sender` goes to: every registered peer
    /// but `sender` itself, each once. Their order is that in which the
    /// registry happens to be walked, and callers must not rely on it.
    pub fn recipients(&self, sender: PeerId) -> (out: Vec<PeerId>)
        ensures
            out@.no_duplicates(),
            out@.to_set() == recipients_of(self@, sender),
    {
        let mut out: Vec<PeerId> = Vec::new();
        let ghost keys: Seq<PeerId> = spec_keys_iter(&self.registry).remaining().unref();
        // from[j] is the place in `keys` that out[j] was taken from
        let ghost mut from: Seq<int> = Seq::empty();
        for key in it: self.registry.keys()
            invariant
                it.seq().unref() == keys,
                keys.no_duplicates(),
                keys.to_set() == self.registry@.dom(),
                from.len() == out.len(),
                forall|j: int| 0 <= j < out.len() ==> 0 <= #[trigger] from[j] < it.index(),
                forall|j: int| 0 <= j < out.len() ==> #[trigger] out[j] == keys[from[j]],
                forall|j: int| 0 <= j < out.len() ==> #[trigger] out[j] != sender,
                forall|a: int, b: int|
                    0 <= a < b < out.len() ==> #[trigger] from[a] < #[trigger] from[b],
                forall|i: int|
                    0 <= i < it.index() && #[trigger] keys[i] != sender ==> out@.contains(keys[i]),
        {
            assert(*key == keys[it.index()]);
            if *key != sender {
                let ghost before = out@;
                out.push(*key);
                proof {
                    from = from.push(it.index());
                    assert forall|i: int|
                        0 <= i <= it.index() && #[trigger] keys[i] != sender implies out@.contains(
                        keys[i],
                    ) by {
                        if i < it.index() {
                            let j = choose|j: int| 0 <= j < before.len() && before[j] == keys[i];
                            assert(out@[j] == keys[i]);
                        } else {
                            assert(out@[out.len() - 1] == keys[i]);
                        }
                    }
                }
            }
        }
        proof {
            assert forall|a: int, b: int| 0 <= a < b < out.len() implies out[a] != out[b] by {
                assert(from[a] < from[b]);
            }
            assert forall|k: PeerId| out@.to_set().contains(k) <==> recipients_of(
                self@,
                sender,
            ).contains(k) by {
                if out@.contains(k) {
                    let j = choose|j: int| 0 <= j < out.len() && out[j] == k;
                    assert(keys.contains(keys[from[j]]));
                }
                if self@.dom().contains(k) && k != sender {
                    assert(keys.to_set().contains(k));
                    let i = choose|i: int| 0 <= i < keys.len() && keys[i] == k;
                    assert(out@.contains(keys[i]));
                }
            }
            assert(out@.to_set() =~= recipients_of(self@, sender));
        }
        out
    }

    /// The handle to write to `id` through, if `id` is registered.
    pub fn handle_of(&self, id: PeerId) -> (handle: Option<&H>)
        ensures
            match handle {
                Some(h) => self@.contains_key(id) && *h == self@[id],
                None => !self@.contains_key(id),
            },
    {
        self.registry.get(&id)
    }

    /// Whether `id` is registered.
    pub fn contains(&self, id: PeerId) -> (found: bool)
        ensures
            found == self@.contains_key(id),
    {
        self.registry.contains_key(&id)
    }

    /// The number of registered peers.
    pub fn len(&self) -> (count: usize)
        ensures
            count == self@.len(),
    {
        self.registry.len()
    }

    /// Whether nobody is registered.
    pub fn is_empty(&self) -> (empty: bool)
        ensures
            empty == (self@.len() == 0),
    {
        self.registry.len() == 0
    }
}

} // verus!
