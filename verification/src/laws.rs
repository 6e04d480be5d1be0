//! What holds of the bridge after any history of callbacks.

use crate::counters::{BEGIN_POINT, END_POINT, PROGRESS_POINT};
use crate::model::BridgeState;
use crate::trace::{occurrences_of, Step};
use vstd::prelude::*;

verus! {

/// Every callback keeps the invariant.
pub proof fn lemma_step_wf(state: BridgeState, step: Step)
    requires
        state.wf(),
        state.admits(step),
    ensures
        state.step(step).wf(),
{
    match step {
        Step::NewSpan(name) => state.lemma_new_span_wf(name),
        Step::Event(name) => state.lemma_event_wf(name),
        Step::Enter(id) => state.lemma_enter_wf(id),
        Step::Exit(id) => state.lemma_exit_wf(id),
    }
}

/// The invariant holds after every history.
pub proof fn lemma_run_wf(state: BridgeState, steps: Seq<Step>)
    requires
        state.wf(),
        state.admits_all(steps),
    ensures
        state.run(steps).wf(),
    decreases steps.len(),
{
    if steps.len() > 0 {
        lemma_run_wf(state, steps.drop_last());
        lemma_step_wf(state.run(steps.drop_last()), steps.last());
    }
}

/// Two different span names never share an identity.
pub proof fn lemma_distinct_names_distinct_identities(
    state: BridgeState,
    a: Seq<char>,
    b: Seq<char>,
)
    requires
        state.wf(),
        state.idents.contains_key(a),
        state.idents.contains_key(b),
        a != b,
    ensures
        state.idents[a] != state.idents[b],
{
}

/// The identity of a span name is the key of exactly one throughput pair:
/// a begin counter and an end counter, both labelled with that name.
pub proof fn lemma_name_has_one_pair(state: BridgeState, name: Seq<char>, id: u64)
    requires
        state.wf(),
        state.idents.contains_key(name),
    ensures
        state.registered(state.idents[name]),
        state.throughput[state.idents[name]].name == name,
        state.throughput[state.idents[name]].start.label == name,
        state.throughput[state.idents[name]].start.point == BEGIN_POINT,
        state.throughput[state.idents[name]].end.label == name,
        state.throughput[state.idents[name]].end.point == END_POINT,
        state.registered(id) && state.throughput[id].name == name ==> id == state.idents[name],
{
}

/// Every throughput pair belongs to exactly one span name, the one it
/// carries.
pub proof fn lemma_pair_has_one_name(state: BridgeState, id: u64, name: Seq<char>)
    requires
        state.wf(),
        state.registered(id),
    ensures
        state.idents.contains_key(state.throughput[id].name),
        state.idents[state.throughput[id].name] == id,
        state.idents.contains_key(name) && state.idents[name] == id ==> name
            == state.throughput[id].name,
{
}

/// `new_span` for a new name hands out the next identity, which is at least
/// one and above every identity handed out before, and puts a pair that has
/// counted nothing under it; every older name and pair stays as it was, and
/// so does every event.
pub proof fn lemma_new_span_fresh(state: BridgeState, name: Seq<char>, other: Seq<char>, id: u64)
    requires
        state.wf(),
        state.has_room(),
        !state.idents.contains_key(name),
    ensures
        state.span_id(name) == state.next_id >= 1,
        state.idents.contains_key(other) ==> state.idents[other] < state.span_id(name),
        !state.registered(state.span_id(name)),
        state.new_span(name).next_id == state.next_id + 1,
        state.new_span(name).idents == state.idents.insert(name, state.span_id(name)),
        state.new_span(name).throughput[state.span_id(name)].start.hits == 0,
        state.new_span(name).throughput[state.span_id(name)].end.hits == 0,
        state.registered(id) ==> state.new_span(name).throughput[id] == state.throughput[id],
        state.new_span(name).latency == state.latency,
{
    if state.registered(state.span_id(name)) {
        state.lemma_registered_below_next(state.span_id(name));
    }
    if state.registered(id) {
        state.lemma_registered_below_next(id);
    }
}

/// A span name keeps its identity through every history.
pub proof fn lemma_identity_is_stable(state: BridgeState, steps: Seq<Step>, name: Seq<char>)
    requires
        state.wf(),
        state.admits_all(steps),
        state.idents.contains_key(name),
    ensures
        state.run(steps).idents.contains_key(name),
        state.run(steps).idents[name] == state.idents[name],
    decreases steps.len(),
{
    if steps.len() > 0 {
        lemma_identity_is_stable(state, steps.drop_last(), name);
    }
}

/// `new_span` for a name answers the same identity however often it is
/// called and whatever happens in between, and from the second call on it
/// changes nothing.
pub proof fn lemma_new_span_is_idempotent(state: BridgeState, name: Seq<char>, steps: Seq<Step>)
    requires
        state.wf(),
        state.admits_span(name),
        state.new_span(name).admits_all(steps),
    ensures
        state.new_span(name).run(steps).admits_span(name),
        state.new_span(name).run(steps).span_id(name) == state.span_id(name),
        state.new_span(name).run(steps).new_span(name) == state.new_span(name).run(steps),
{
    state.lemma_new_span_wf(name);
    lemma_identity_is_stable(state.new_span(name), steps, name);
    lemma_run_wf(state.new_span(name), steps);
}

/// One occurrence of an event whose name is known makes no counter: the
/// table keeps its names, and the counter under the name is the one that was
/// there, incremented once.
pub proof fn lemma_event_known(state: BridgeState, name: Seq<char>, other: Seq<char>)
    requires
        state.wf(),
        state.latency.contains_key(name),
    ensures
        state.event(name).latency.contains_key(other) <==> state.latency.contains_key(other),
        state.event(name).latency[name] == state.latency[name].hit(),
        other != name ==> state.event(name).latency[other] == state.latency[other],
        state.event(name).idents == state.idents,
        state.event(name).throughput == state.throughput,
{
}

/// The first occurrence of an event makes one progress counter labelled with
/// the event's name, which has counted that occurrence; nothing else changes.
pub proof fn lemma_event_first(state: BridgeState, name: Seq<char>, other: Seq<char>)
    requires
        state.wf(),
        !state.latency.contains_key(name),
    ensures
        state.event(name).latency.contains_key(name),
        state.event(name).latency[name].label == name,
        state.event(name).latency[name].point == PROGRESS_POINT,
        state.event(name).latency[name].hits == 1,
        other != name ==> (state.event(name).latency.contains_key(other)
            <==> state.latency.contains_key(other)),
        other != name ==> state.event(name).latency[other] == state.latency[other],
        state.event(name).idents == state.idents,
        state.event(name).throughput == state.throughput,
{
}

/// Entering a span counts once on its begin counter and on nothing else: its
/// end counter, every other pair, the names and the events stay as they were.
pub proof fn lemma_enter_counts_begin(state: BridgeState, id: u64, other: u64)
    requires
        state.wf(),
        state.registered(id),
    ensures
        state.enter(id).registered(other) <==> state.registered(other),
        state.enter(id).throughput[id].start == state.throughput[id].start.hit(),
        state.enter(id).throughput[id].end == state.throughput[id].end,
        state.enter(id).throughput[id].name == state.throughput[id].name,
        other != id ==> state.enter(id).throughput[other] == state.throughput[other],
        state.enter(id).idents == state.idents,
        state.enter(id).latency == state.latency,
        state.enter(id).next_id == state.next_id,
{
}

/// Leaving a span counts once on its end counter and on nothing else: its
/// begin counter, every other pair, the names and the events stay as they
/// were.
pub proof fn lemma_exit_counts_end(state: BridgeState, id: u64, other: u64)
    requires
        state.wf(),
        state.registered(id),
    ensures
        state.exit(id).registered(other) <==> state.registered(other),
        state.exit(id).throughput[id].end == state.throughput[id].end.hit(),
        state.exit(id).throughput[id].start == state.throughput[id].start,
        state.exit(id).throughput[id].name == state.throughput[id].name,
        other != id ==> state.exit(id).throughput[other] == state.throughput[other],
        state.exit(id).idents == state.idents,
        state.exit(id).latency == state.latency,
        state.exit(id).next_id == state.next_id,
{
}

/// An event name has a progress counter exactly when the event occurred, and
/// the counter's tally after a history is the tally before it plus the number
/// of `event` callbacks for that name.
pub proof fn lemma_event_tally(state: BridgeState, steps: Seq<Step>, name: Seq<char>)
    requires
        state.wf(),
        state.admits_all(steps),
    ensures
        state.run(steps).occurrences(name) == state.occurrences(name) + occurrences_of(
            steps,
            Step::Event(name),
        ),
        state.run(steps).latency.contains_key(name) <==> state.run(steps).occurrences(name) > 0,
    decreases steps.len(),
{
    if steps.len() > 0 {
        lemma_event_tally(state, steps.drop_last(), name);
    }
    lemma_run_wf(state, steps);
}

/// A registered span stays registered under its name, and after a history
/// its begin tally has grown by the number of `enter` callbacks for its
/// identity and its end tally by the number of `exit` callbacks for it:
/// callbacks for other spans leave it alone.
pub proof fn lemma_throughput_tally(state: BridgeState, steps: Seq<Step>, id: u64)
    requires
        state.wf(),
        state.admits_all(steps),
        state.registered(id),
    ensures
        state.run(steps).registered(id),
        state.run(steps).throughput[id].name == state.throughput[id].name,
        state.run(steps).throughput[id].start.hits == state.throughput[id].start.hits
            + occurrences_of(steps, Step::Enter(id)),
        state.run(steps).throughput[id].end.hits == state.throughput[id].end.hits
            + occurrences_of(steps, Step::Exit(id)),
    decreases steps.len(),
{
    if steps.len() > 0 {
        let before = state.run(steps.drop_last());
        lemma_throughput_tally(state, steps.drop_last(), id);
        lemma_run_wf(state, steps.drop_last());
        match steps.last() {
            Step::NewSpan(name) => {
                if !before.idents.contains_key(name) {
                    before.lemma_registered_below_next(id);
                }
            },
            _ => {},
        }
    }
}

/// A span counts its entries and exits from the first: in a history that
/// starts with its registration on a new name, its begin tally is the number
/// of `enter` callbacks for its identity and its end tally the number of
/// `exit` callbacks for it.
pub proof fn lemma_span_counts_from_zero(state: BridgeState, name: Seq<char>, steps: Seq<Step>)
    requires
        state.wf(),
        state.has_room(),
        !state.idents.contains_key(name),
        state.new_span(name).admits_all(steps),
    ensures
        state.new_span(name).run(steps).throughput[state.span_id(name)].start.hits
            == occurrences_of(steps, Step::Enter(state.span_id(name))),
        state.new_span(name).run(steps).throughput[state.span_id(name)].end.hits
            == occurrences_of(steps, Step::Exit(state.span_id(name))),
{
    state.lemma_new_span_wf(name);
    lemma_throughput_tally(state.new_span(name), steps, state.span_id(name));
}

/// A callback for an identity that no `new_span` returned is never admitted:
/// in a state reached from the initial one, only identities that `new_span`
/// answered are registered.
pub proof fn lemma_only_new_span_registers(steps: Seq<Step>, id: u64)
    requires
        BridgeState::initial().admits_all(steps),
        BridgeState::initial().run(steps).registered(id),
    ensures
        exists|i: int|
            0 <= i < steps.len() && (#[trigger] steps[i]) is NewSpan
                && BridgeState::initial().run(steps.take(i)).span_id(steps[i]->NewSpan_0) == id,
    decreases steps.len(),
{
    let start = BridgeState::initial();
    if steps.len() > 0 {
        let front = steps.drop_last();
        let before = start.run(front);
        let last = (steps.len() - 1) as int;
        if before.registered(id) {
            lemma_only_new_span_registers(front, id);
            let i = choose|i: int|
                0 <= i < front.len() && (#[trigger] front[i]) is NewSpan && start.run(
                    front.take(i),
                ).span_id(front[i]->NewSpan_0) == id;
            assert(front.take(i) =~= steps.take(i));
            assert(steps[i] == front[i]);
        } else {
            assert(steps.take(last) =~= front);
            assert(steps[last] == steps.last());
        }
    }
}

} // verus!
