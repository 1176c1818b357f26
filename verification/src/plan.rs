//! What is to be written to the virtual devices.

use vstd::prelude::*;

use crate::input::InputEvent;

verus! {

/// The two virtual devices.
#[derive(Clone, Copy, Debug, PartialEq, Eq, Structural)]
pub enum Device {
    /// Pointer, wheel, buttons and keys.
    Mouse,
    /// Multitouch contacts.
    Touchpad,
}

/// Batches of events for one device. Each batch is emitted by itself, in order; the first one
/// that the device refuses ends the plan.
#[derive(Debug)]
pub struct Plan {
    pub device: Device,
    pub batches: Vec<Vec<InputEvent>>,
    /// Whether the swipe in progress is over once every batch has been emitted.
    pub ends_swipe: bool,
}

#[verifier::ext_equal]
pub struct PlanView {
    pub device: Device,
    pub batches: Seq<Seq<InputEvent>>,
    pub ends_swipe: bool,
}

/// The batches as sequences of events.
pub open spec fn batches_view(batches: Seq<Vec<InputEvent>>) -> Seq<Seq<InputEvent>> {
    batches.map_values(|batch: Vec<InputEvent>| batch@)
}

/// Adding a batch adds its events at the end.
pub proof fn lemma_batches_push(batches: Seq<Vec<InputEvent>>, batch: Vec<InputEvent>)
    ensures
        batches_view(batches.push(batch)) == batches_view(batches).push(batch@),
{
    assert(batches_view(batches.push(batch)) =~= batches_view(batches).push(batch@));
}

impl View for Plan {
    type V = PlanView;

    open spec fn view(&self) -> PlanView {
        PlanView {
            device: self.device,
            batches: batches_view(self.batches@),
            ends_swipe: self.ends_swipe,
        }
    }
}

/// How far the emission of a plan has come.
#[derive(Clone, Copy, Debug, PartialEq, Eq, Structural)]
pub struct Emission {
    /// The number of batches that the device has taken.
    pub emitted: usize,
    /// Whether the device has refused the batch after those.
    pub refused: bool,
}

impl Emission {
    /// Nothing has been emitted yet.
    pub open spec fn initial() -> Emission {
        Emission { emitted: 0, refused: false }
    }

    /// Whether there is a batch to emit: none has been refused, and not all have been taken.
    pub open spec fn wants(self, plan: PlanView) -> bool {
        !self.refused && self.emitted < plan.batches.len()
    }

    /// The emission after the device has taken or refused the batch that was due.
    pub open spec fn replied(self, taken: bool) -> Emission {
        if taken {
            Emission { emitted: (self.emitted + 1) as usize, ..self }
        } else {
            Emission { refused: true, ..self }
        }
    }

    /// Nothing has been emitted yet.
    pub fn new() -> (emission: Emission)
        ensures
            emission == Emission::initial(),
    {
        Emission { emitted: 0, refused: false }
    }
}

impl Plan {
    /// The batch to emit next: the one after those that the device has taken, as long as it has
    /// refused none.
    pub fn next_batch(&self, emission: Emission) -> (batch: Option<&Vec<InputEvent>>)
        ensures
            batch is Some <==> emission.wants(self@),
            batch matches Some(b) ==> b@ == self@.batches[emission.emitted as int],
    {
        if !emission.refused && emission.emitted < self.batches.len() {
            Some(&self.batches[emission.emitted])
        } else {
            None
        }
    }

    /// The emission after the device has taken or refused the batch that was due.
    pub fn replied(&self, emission: Emission, taken: bool) -> (next: Emission)
        requires
            emission.wants(self@),
        ensures
            next == emission.replied(taken),
            next.emitted <= self@.batches.len(),
    {
        assert(emission.emitted < self.batches.len());
        if taken {
            Emission { emitted: emission.emitted + 1, ..emission }
        } else {
            Emission { refused: true, ..emission }
        }
    }
}

/// The emission of a plan to a device that takes the batches it is asked to emit as `replies`
/// says, one reply for each; replies to batches that it is not asked to emit do not count.
pub open spec fn emission_after(plan: PlanView, replies: Seq<bool>) -> Emission
    decreases replies.len(),
{
    if replies.len() == 0 {
        Emission::initial()
    } else {
        let before = emission_after(plan, replies.drop_last());
        if before.wants(plan) {
            before.replied(replies.last())
        } else {
            before
        }
    }
}

/// The batches that such a device is asked to emit.
pub open spec fn asked_for(plan: PlanView, replies: Seq<bool>) -> Seq<Seq<InputEvent>>
    decreases replies.len(),
{
    if replies.len() == 0 {
        seq![]
    } else {
        let before = emission_after(plan, replies.drop_last());
        let asked = asked_for(plan, replies.drop_last());
        if before.wants(plan) {
            asked.push(plan.batches[before.emitted as int])
        } else {
            asked
        }
    }
}

/// A device is asked to emit the batches of a plan in order, each once: those that it takes, and
/// the first one that it refuses, after which there is none. With a reply to each batch the
/// emission is over: all were taken, or one was refused.
pub proof fn law_emission_stops_at_refusal(plan: PlanView, replies: Seq<bool>)
    requires
        plan.batches.len() <= usize::MAX,
    ensures
        ({
            let emission = emission_after(plan, replies);
            let emitted = emission.emitted as int;
            &&& emitted <= plan.batches.len() && emitted <= replies.len()
            &&& forall|i: int| 0 <= i < emitted ==> replies[i]
            &&& asked_for(plan, replies) == plan.batches.take(
                if emission.refused {
                    emitted + 1
                } else {
                    emitted
                },
            )
            &&& emission.refused ==> emitted < plan.batches.len() && emitted < replies.len()
                && !replies[emitted]
            &&& !emission.refused ==> emitted == plan.batches.len() || emitted == replies.len()
        }),
    decreases replies.len(),
{
    if replies.len() == 0 {
        assert(plan.batches.take(0) =~= seq![]);
    } else {
        let earlier = replies.drop_last();
        let before = emission_after(plan, earlier);
        law_emission_stops_at_refusal(plan, earlier);
        assert(forall|i: int| 0 <= i < earlier.len() ==> replies[i] == earlier[i]);
        if before.wants(plan) {
            let emitted = before.emitted as int;
            assert(plan.batches.take(emitted + 1) =~= plan.batches.take(emitted).push(
                plan.batches[emitted],
            ));
        }
    }
}

} // verus!
