//! What holds of the relay over whole sequences of events.
//!
//! The hub is used one event at a time. The statements here follow a run
//! from its first event to its last: which peers the registry holds at the
//! end, and what each peer has been sent on the way.

use vstd::prelude::*;
use crate::event::{Event, PeerId};
use crate::hub::{answers, apply, recipients_of, Reaction};

verus! {

/// The registry after the hub, starting from `start`, has processed
/// `events` in order.
pub open spec fn registry_after<H>(start: Map<PeerId, H>, events: Seq<Event<H>>) -> Map<PeerId, H>
    decreases events.len(),
{
    if events.len() == 0 {
        start
    } else {
        apply(registry_after(start, events.drop_last()), events.last())
    }
}

/// Whether `event` enters `id` into the registry or removes it.
pub open spec fn concerns<H>(event: Event<H>, id: PeerId) -> bool {
    event.peer() == id && !(event is DataReceived)
}

/// Whether `events[at]` is a connect of `id` that no later event of the
/// sequence replaces or takes back.
pub open spec fn stands<H>(events: Seq<Event<H>>, id: PeerId, at: int) -> bool {
    &&& 0 <= at < events.len()
    &&& events[at] is Connected
    &&& events[at].peer() == id
    &&& forall|later: int| at < later < events.len() ==> !concerns(#[trigger] events[later], id)
}

/// Whether no event of the sequence enters `id` or removes it.
pub open spec fn untouched<H>(events: Seq<Event<H>>, id: PeerId) -> bool {
    forall|at: int| 0 <= at < events.len() ==> !concerns(#[trigger] events[at], id)
}

/// Registry consistency. After any sequence of events, a peer is registered
/// exactly if a connect of it stands, that is, it has connected and has not
/// disconnected since; or if it was registered at the start and no event
/// concerned it. The handle on record is the one that came with that
/// connect.
pub proof fn lemma_registry_consistency<H>(start: Map<PeerId, H>, events: Seq<Event<H>>, id: PeerId)
    ensures
        registry_after(start, events).contains_key(id) <==> (exists|at: int|
            stands(events, id, at)) || (start.contains_key(id) && untouched(events, id)),
        forall|at: int|
            stands(events, id, at) ==> registry_after(start, events)[id] == events[at].conn(),
        untouched(events, id) && start.contains_key(id) ==> registry_after(start, events)[id]
            == start[id],
    decreases events.len(),
{
    if events.len() > 0 {
        let before = events.drop_last();
        let last = events.last();
        let n = events.len() - 1;
        lemma_registry_consistency(start, before, id);
        assert(events[n] == last);
        assert forall|at: int| 0 <= at < n implies before[at] == events[at] by {}
        if concerns(last, id) {
            assert(!untouched(events, id));
            assert forall|at: int| 0 <= at < n implies !stands(events, id, at) by {
                assert(concerns(events[n], id));
            }
            if last is Connected {
                assert(stands(events, id, n));
            }
        } else {
            assert forall|at: int| stands(events, id, at) <==> stands(before, id, at) by {
                if stands(before, id, at) {
                    assert forall|later: int| at < later < events.len() implies !concerns(
                        #[trigger] events[later],
                        id,
                    ) by {
                        if later < n {
                            assert(before[later] == events[later]);
                        }
                    }
                }
            }
            assert(untouched(events, id) <==> untouched(before, id)) by {
                if untouched(before, id) {
                    assert forall|at: int| 0 <= at < events.len() implies !concerns(
                        #[trigger] events[at],
                        id,
                    ) by {
                        if at < n {
                            assert(before[at] == events[at]);
                        }
                    }
                }
            }
        }
    }
}

/// Idempotent disconnect. Two disconnects of one peer, whatever handles
/// they carry, leave the registry as one does.
pub proof fn lemma_disconnect_idempotent<H>(
    registry: Map<PeerId, H>,
    id: PeerId,
    first: H,
    second: H,
)
    ensures
        apply(
            apply(registry, Event::Disconnected { id, handle: first }),
            Event::Disconnected { id, handle: second },
        ) == apply(registry, Event::Disconnected { id, handle: first }),
{
    assert(registry.remove(id).remove(id) =~= registry.remove(id));
}

/// A disconnect of a peer that is not registered changes nothing.
pub proof fn lemma_disconnect_absent<H>(registry: Map<PeerId, H>, id: PeerId, handle: H)
    requires
        !registry.contains_key(id),
    ensures
        apply(registry, Event::Disconnected { id, handle }) == registry,
{
    assert(registry.remove(id) =~= registry);
}

/// The copies of `payload` that writing to `recipients` in order sends to
/// `peer`: one for each place that `peer` has among them.
pub open spec fn copies_for(recipients: Seq<PeerId>, payload: Seq<u8>, peer: PeerId) -> Seq<
    Seq<u8>,
>
    decreases recipients.len(),
{
    if recipients.len() == 0 {
        Seq::empty()
    } else {
        let earlier = copies_for(recipients.drop_last(), payload, peer);
        if recipients.last() == peer {
            earlier.push(payload)
        } else {
            earlier
        }
    }
}

/// Among recipients that are all different, a peer gets one copy if it is a
/// recipient and none if it is not.
pub proof fn lemma_copies_once(recipients: Seq<PeerId>, payload: Seq<u8>, peer: PeerId)
    requires
        recipients.no_duplicates(),
    ensures
        copies_for(recipients, payload, peer) == if recipients.contains(peer) {
            seq![payload]
        } else {
            Seq::<Seq<u8>>::empty()
        },
    decreases recipients.len(),
{
    if recipients.len() > 0 {
        let before = recipients.drop_last();
        let n = recipients.len() - 1;
        assert forall|i: int| 0 <= i < n implies before[i] == recipients[i] by {}
        lemma_copies_once(before, payload, peer);
        if recipients.last() == peer {
            assert(recipients[n] == peer);
            if before.contains(peer) {
                let i = choose|i: int| 0 <= i < before.len() && before[i] == peer;
                assert(recipients[i] == recipients[n]);
            }
            assert(Seq::<Seq<u8>>::empty().push(payload) =~= seq![payload]);
        } else {
            if recipients.contains(peer) {
                let i = choose|i: int| 0 <= i < recipients.len() && recipients[i] == peer;
                assert(before[i] == peer);
            }
            if before.contains(peer) {
                let i = choose|i: int| 0 <= i < before.len() && before[i] == peer;
                assert(recipients[i] == peer);
            }
        }
    }
}

/// No self-echo. The fan-out of a payload never names the peer that sent
/// it, so nothing of it is written back to the sender.
pub proof fn lemma_no_self_echo<H>(registry: Map<PeerId, H>, event: Event<H>, reaction: Reaction)
    requires
        event is DataReceived,
        answers(registry, event, reaction),
    ensures
        reaction is Broadcast,
        !reaction->fan_out@.recipients.contains(event.peer()),
        copies_for(reaction->fan_out@.recipients, reaction->fan_out@.payload, event.peer())
            == Seq::<Seq<u8>>::empty(),
{
    let plan = reaction->fan_out@;
    if plan.recipients.contains(event.peer()) {
        assert(plan.recipients.to_set().contains(event.peer()));
    }
    lemma_copies_once(plan.recipients, plan.payload, event.peer());
}

/// Full fan-out. Every peer that is registered when a payload arrives,
/// other than its sender, is a recipient of the fan-out, and is sent the
/// payload once, byte for byte as it came.
pub proof fn lemma_full_fan_out<H>(
    registry: Map<PeerId, H>,
    event: Event<H>,
    reaction: Reaction,
    peer: PeerId,
)
    requires
        event is DataReceived,
        answers(registry, event, reaction),
        registry.contains_key(peer),
        peer != event.peer(),
    ensures
        reaction is Broadcast,
        reaction->fan_out@.recipients.contains(peer),
        copies_for(reaction->fan_out@.recipients, reaction->fan_out@.payload, peer) == seq![
            event->payload@,
        ],
{
    let plan = reaction->fan_out@;
    assert(recipients_of(registry, event.peer()).contains(peer));
    assert(plan.recipients.to_set().contains(peer));
    lemma_copies_once(plan.recipients, plan.payload, peer);
}

/// Whether `reactions` are answers of the hub to `events`, one for each
/// event, on a run that starts from the registry `start`.
pub open spec fn is_run<H>(
    start: Map<PeerId, H>,
    events: Seq<Event<H>>,
    reactions: Seq<Reaction>,
) -> bool {
    &&& reactions.len() == events.len()
    &&& forall|at: int|
        0 <= at < events.len() ==> answers(
            registry_after(start, events.take(at)),
            events[at],
            #[trigger] reactions[at],
        )
}

/// The payloads that carrying out `reactions` in order sends to `peer`,
/// oldest first.
pub open spec fn sent_to(reactions: Seq<Reaction>, peer: PeerId) -> Seq<Seq<u8>>
    decreases reactions.len(),
{
    if reactions.len() == 0 {
        Seq::empty()
    } else {
        let earlier = sent_to(reactions.drop_last(), peer);
        match reactions.last() {
            Reaction::Broadcast { fan_out } => earlier + copies_for(
                fan_out@.recipients,
                fan_out@.payload,
                peer,
            ),
            _ => earlier,
        }
    }
}

/// The payloads that `peer` is owed on a run of `events` from `start`: those
/// of the data events that other peers raised while `peer` was registered,
/// in the order of the events.
pub open spec fn owed_to<H>(start: Map<PeerId, H>, events: Seq<Event<H>>, peer: PeerId) -> Seq<
    Seq<u8>,
>
    decreases events.len(),
{
    if events.len() == 0 {
        Seq::empty()
    } else {
        let before = events.drop_last();
        let earlier = owed_to(start, before, peer);
        match events.last() {
            Event::DataReceived { id, payload, .. } => if id != peer && registry_after(
                start,
                before,
            ).contains_key(peer) {
                earlier.push(payload@)
            } else {
                earlier
            },
            _ => earlier,
        }
    }
}

/// Fan-out in order. On every run, each peer is sent exactly what it is
/// owed: the payloads of the others, each once and unchanged, in the order
/// in which the hub took the events, and nothing of its own.
pub proof fn lemma_fan_out_in_order<H>(
    start: Map<PeerId, H>,
    events: Seq<Event<H>>,
    reactions: Seq<Reaction>,
    peer: PeerId,
)
    requires
        is_run(start, events, reactions),
    ensures
        sent_to(reactions, peer) == owed_to(start, events, peer),
    decreases events.len(),
{
    if events.len() > 0 {
        let n = events.len() - 1;
        let before = events.drop_last();
        let answered = reactions.drop_last();
        assert(before =~= events.take(n));
        assert forall|at: int| 0 <= at < before.len() implies answers(
            registry_after(start, before.take(at)),
            before[at],
            #[trigger] answered[at],
        ) by {
            assert(before.take(at) =~= events.take(at));
            assert(answered[at] == reactions[at]);
        }
        lemma_fan_out_in_order(start, before, answered, peer);
        let registry = registry_after(start, before);
        assert(answers(registry, events[n], reactions[n]));
        match events.last() {
            Event::DataReceived { id, payload, .. } => {
                let plan = reactions.last()->fan_out@;
                lemma_copies_once(plan.recipients, plan.payload, peer);
                assert(plan.recipients.contains(peer) <==> plan.recipients.to_set().contains(peer));
                assert(recipients_of(registry, id).contains(peer) <==> id != peer
                    && registry.contains_key(peer));
                let earlier = sent_to(answered, peer);
                assert(earlier + seq![plan.payload] =~= earlier.push(plan.payload));
                assert(earlier + Seq::<Seq<u8>>::empty() =~= earlier);
            },
            _ => {},
        }
    }
}

} // verus!
