//! Delivery of one payload to its recipients, one write at a time.
//!
//! The hub does not write to sockets itself. For each payload it hands out a
//! [`FanOut`]: the recipients in the order in which they are to be written
//! to, and the bytes. The embedding program asks for the next recipient,
//! attempts the write and reports how it went. A failed write is recorded
//! and nothing else: the recipients that follow stay where they are.

use vstd::prelude::*;
use crate::event::PeerId;

verus! {

/// A fan-out as contracts see it.
pub struct FanOutState {
    /// Every peer the payload goes to, in writing order.
    pub recipients: Seq<PeerId>,
    /// The bytes that each recipient is to receive.
    pub payload: Seq<u8>,
    /// How the writes attempted so far went, in the same order:
    /// `results[i]` belongs to `recipients[i]`.
    pub results: Seq<bool>,
}

/// The recipients whose write has been attempted and ended as `outcome`
/// says, in writing order.
pub open spec fn settled(recipients: Seq<PeerId>, results: Seq<bool>, outcome: bool) -> Seq<PeerId>
    decreases results.len(),
{
    if results.len() == 0 {
        Seq::empty()
    } else {
        let earlier = settled(recipients, results.drop_last(), outcome);
        let at = results.len() - 1;
        if results.last() == outcome && at < recipients.len() {
            earlier.push(recipients[at])
        } else {
            earlier
        }
    }
}

impl FanOutState {
    /// No more results than recipients.
    pub open spec fn wf(self) -> bool {
        self.results.len() <= self.recipients.len()
    }

    /// No write has been attempted yet.
    pub open spec fn is_fresh(self) -> bool {
        self.results.len() == 0
    }

    /// Every recipient has had its attempt.
    pub open spec fn is_complete(self) -> bool {
        self.results.len() >= self.recipients.len()
    }

    /// The recipients still to be written to, next one first.
    pub open spec fn pending(self) -> Seq<PeerId> {
        self.recipients.skip(self.results.len() as int)
    }

    /// The state after the write to the next recipient ended as `ok` says.
    /// With nothing pending there is nothing to record.
    pub open spec fn record(self, ok: bool) -> FanOutState {
        if self.is_complete() {
            self
        } else {
            FanOutState {
                recipients: self.recipients,
                payload: self.payload,
                results: self.results.push(ok),
            }
        }
    }

    /// The recipients that have received the payload.
    pub open spec fn delivered(self) -> Seq<PeerId> {
        settled(self.recipients, self.results, true)
    }

    /// The recipients whose write failed.
    pub open spec fn failed(self) -> Seq<PeerId> {
        settled(self.recipients, self.results, false)
    }
}

/// One payload on its way to its recipients.
#[derive(Debug)]
pub struct FanOut {
    recipients: Vec<PeerId>,
    payload: Vec<u8>,
    results: Vec<bool>,
}

impl View for FanOut {
    type V = FanOutState;

    closed spec fn view(&self) -> FanOutState {
        FanOutState {
            recipients: self.recipients@,
            payload: self.payload@,
            results: self.results@,
        }
    }
}

impl FanOut {
    /// A fan-out of `payload` to `recipients` on which nothing has been
    /// attempted.
    pub fn new(recipients: Vec<PeerId>, payload: Vec<u8>) -> (fan_out: FanOut)
        ensures
            fan_out@.recipients == recipients@,
            fan_out@.payload == payload@,
            fan_out@.is_fresh(),
    {
        FanOut { recipients, payload, results: Vec::new() }
    }

    /// The bytes to write, the same for every recipient.
    pub fn payload(&self) -> (bytes: &Vec<u8>)
        ensures
            bytes@ == self@.payload,
    {
        &self.payload
    }

    /// All recipients, in writing order.
    pub fn recipients(&self) -> (peers: &Vec<PeerId>)
        ensures
            peers@ == self@.recipients,
    {
        &self.recipients
    }

    /// Whether every recipient has had its attempt.
    pub fn is_complete(&self) -> (done: bool)
        ensures
            done == self@.is_complete(),
    {
        self.results.len() >= self.recipients.len()
    }

    /// The recipient to write to next, `None` once all have been tried.
    pub fn next_recipient(&self) -> (next: Option<PeerId>)
        ensures
            next == if self@.is_complete() {
                None
            } else {
                Some(self@.pending()[0])
            },
    {
        let at = self.results.len();
        if at < self.recipients.len() {
            Some(self.recipients[at])
        } else {
            None
        }
    }

    /// Records how the write to the next recipient went and moves on to the
    /// one after it, whether the write succeeded or not.
    pub fn written(&mut self, ok: bool)
        ensures
            final(self)@ == old(self)@.record(ok),
    {
        if self.results.len() < self.recipients.len() {
            self.results.push(ok);
        }
    }

    /// The recipients attempted so far whose write ended as `outcome` says.
    fn settled_as(&self, outcome: bool) -> (peers: Vec<PeerId>)
        ensures
            peers@ == settled(self@.recipients, self@.results, outcome),
    {
        let mut peers: Vec<PeerId> = Vec::new();
        let mut at: usize = 0;
        while at < self.results.len()
            invariant
                at <= self.results.len(),
                peers@ == settled(self.recipients@, self.results@.take(at as int), outcome),
            decreases self.results.len() - at,
        {
            assert(self.results@.take(at + 1).drop_last() == self.results@.take(at as int));
            if self.results[at] == outcome && at < self.recipients.len() {
                peers.push(self.recipients[at]);
            }
            at += 1;
        }
        assert(self.results@.take(at as int) == self.results@);
        peers
    }

    /// The recipients that have received the payload so far.
    pub fn delivered(&self) -> (peers: Vec<PeerId>)
        ensures
            peers@ == self@.delivered(),
    {
        self.settled_as(true)
    }

    /// The recipients whose write has failed so far.
    pub fn failed(&self) -> (peers: Vec<PeerId>)
        ensures
            peers@ == self@.failed(),
    {
        self.settled_as(false)
    }
}

impl FanOutState {
    /// The state after the writes to the next recipients ended as `outcomes`
    /// says, one after the other.
    pub open spec fn run(self, outcomes: Seq<bool>) -> FanOutState
        decreases outcomes.len(),
    {
        if outcomes.len() == 0 {
            self
        } else {
            self.run(outcomes.drop_last()).record(outcomes.last())
        }
    }
}

/// A fan-out walks its recipients in order, whatever the writes do: after
/// as many attempts as there are recipients, each recipient has had exactly
/// its own, and neither the recipients nor the payload have changed.
pub proof fn lemma_run_attempts_all(plan: FanOutState, outcomes: Seq<bool>)
    requires
        plan.is_fresh(),
        outcomes.len() <= plan.recipients.len(),
    ensures
        plan.run(outcomes).recipients == plan.recipients,
        plan.run(outcomes).payload == plan.payload,
        plan.run(outcomes).results == outcomes,
        plan.run(outcomes).pending() == plan.recipients.skip(outcomes.len() as int),
    decreases outcomes.len(),
{
    if outcomes.len() > 0 {
        lemma_run_attempts_all(plan, outcomes.drop_last());
        assert(outcomes.drop_last().push(outcomes.last()) =~= outcomes);
    } else {
        assert(plan.results =~= outcomes);
    }
}

/// Among the recipients tried so far, those whose own write ended as
/// `outcome` says are the settled ones, and no others.
pub proof fn lemma_settled_by_own_result(
    recipients: Seq<PeerId>,
    results: Seq<bool>,
    outcome: bool,
    peer: PeerId,
)
    requires
        results.len() <= recipients.len(),
    ensures
        settled(recipients, results, outcome).contains(peer) <==> exists|at: int|
            0 <= at < results.len() && #[trigger] recipients[at] == peer && results[at] == outcome,
    decreases results.len(),
{
    if results.len() > 0 {
        let n = results.len() - 1;
        let before = results.drop_last();
        let earlier = settled(recipients, before, outcome);
        lemma_settled_by_own_result(recipients, before, outcome, peer);
        assert forall|at: int| 0 <= at < n implies before[at] == results[at] by {}
        if settled(recipients, results, outcome).contains(peer) {
            let now = settled(recipients, results, outcome);
            let j = choose|j: int| 0 <= j < now.len() && now[j] == peer;
            if results.last() == outcome && j == earlier.len() {
                assert(recipients[n] == peer && results[n] == outcome);
            } else {
                assert(earlier[j] == peer);
                let at = choose|at: int|
                    0 <= at < before.len() && #[trigger] recipients[at] == peer && before[at]
                        == outcome;
                assert(recipients[at] == peer && results[at] == outcome);
            }
        }
        if exists|at: int|
            0 <= at < results.len() && #[trigger] recipients[at] == peer && results[at] == outcome {
            let at = choose|at: int|
                0 <= at < results.len() && #[trigger] recipients[at] == peer && results[at]
                    == outcome;
            let now = settled(recipients, results, outcome);
            if at == n {
                assert(now[now.len() - 1] == peer);
            } else {
                assert(recipients[at] == peer && before[at] == outcome);
                let j = choose|j: int| 0 <= j < earlier.len() && earlier[j] == peer;
                assert(now[j] == peer);
            }
        }
    }
}

/// Fault isolation. Take any fan-out and any way its writes may end. If the
/// write to one recipient fails, every other recipient whose own write
/// succeeds has received the payload all the same, the failed one is on
/// record as failed, and the payload is the one the fan-out began with.
pub proof fn lemma_fault_isolation(plan: FanOutState, outcomes: Seq<bool>, failing: int, other: int)
    requires
        plan.is_fresh(),
        outcomes.len() == plan.recipients.len(),
        0 <= failing < outcomes.len(),
        0 <= other < outcomes.len(),
        other != failing,
        !outcomes[failing],
        outcomes[other],
    ensures
        plan.run(outcomes).is_complete(),
        plan.run(outcomes).payload == plan.payload,
        plan.run(outcomes).delivered().contains(plan.recipients[other]),
        plan.run(outcomes).failed().contains(plan.recipients[failing]),
{
    lemma_run_attempts_all(plan, outcomes);
    lemma_settled_by_own_result(plan.recipients, outcomes, true, plan.recipients[other]);
    lemma_settled_by_own_result(plan.recipients, outcomes, false, plan.recipients[failing]);
}

} // verus!
