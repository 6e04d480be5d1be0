//! Histories of callbacks, for stating what holds after any number of them.

use crate::counters::profiler_name;
use crate::model::BridgeState;
use vstd::prelude::*;

verus! {

/// One callback that changes the bridge.
pub enum Step {
    /// `new_span` for a span name.
    NewSpan(Seq<char>),
    /// `event` for an event name.
    Event(Seq<char>),
    /// `enter` for the number of an identity.
    Enter(u64),
    /// `exit` for the number of an identity.
    Exit(u64),
}

impl BridgeState {
    /// Whether the callback's precondition holds in this state.
    pub open spec fn admits(self, step: Step) -> bool {
        match step {
            Step::NewSpan(name) => self.admits_span(name),
            Step::Event(name) => profiler_name(name),
            Step::Enter(id) => self.countable(id),
            Step::Exit(id) => self.countable(id),
        }
    }

    /// The state after the callback.
    pub open spec fn step(self, step: Step) -> BridgeState {
        match step {
            Step::NewSpan(name) => self.new_span(name),
            Step::Event(name) => self.event(name),
            Step::Enter(id) => self.enter(id),
            Step::Exit(id) => self.exit(id),
        }
    }

    /// The state after the callbacks of `steps`, in order.
    pub open spec fn run(self, steps: Seq<Step>) -> BridgeState
        decreases steps.len(),
    {
        if steps.len() == 0 {
            self
        } else {
            self.run(steps.drop_last()).step(steps.last())
        }
    }

    /// Whether each callback of `steps` meets its precondition when its turn
    /// comes.
    pub open spec fn admits_all(self, steps: Seq<Step>) -> bool
        decreases steps.len(),
    {
        steps.len() == 0 || (self.admits_all(steps.drop_last()) && self.run(
            steps.drop_last(),
        ).admits(steps.last()))
    }
}

/// How often `step` occurs in `steps`.
pub open spec fn occurrences_of(steps: Seq<Step>, step: Step) -> nat
    decreases steps.len(),
{
    if steps.len() == 0 {
        0
    } else if steps.last() == step {
        occurrences_of(steps.drop_last(), step) + 1
    } else {
        occurrences_of(steps.drop_last(), step)
    }
}

} // verus!
