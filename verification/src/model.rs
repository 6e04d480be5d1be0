//! The bridge as a mathematical state, and what each callback does to it.

use crate::counters::{profiler_name, Tally, Throughput, PROGRESS_POINT};
use vstd::prelude::*;

verus! {

/// The state of a bridge: the next identity to hand out and the three tables.
pub struct BridgeState {
    /// The number that the next new span name will get.
    pub next_id: nat,
    /// For each span name seen so far, the number of its identity.
    pub idents: Map<Seq<char>, u64>,
    /// For each identity handed out, its throughput pair.
    pub throughput: Map<u64, Throughput>,
    /// For each event name seen so far, its progress counter.
    pub latency: Map<Seq<char>, Tally>,
}

impl BridgeState {
    /// The state of a bridge that has seen nothing: identities start at one.
    pub open spec fn initial() -> BridgeState {
        BridgeState {
            next_id: 1,
            idents: Map::empty(),
            throughput: Map::empty(),
            latency: Map::empty(),
        }
    }

    /// Span names and identities correspond one to one. The pair of a name's
    /// identity carries that name, and the name of every pair has the pair's
    /// key as its identity. Every pair is a begin and an end counter under
    /// the span's name, and every identity handed out lies between one and
    /// the next to hand out.
    pub open spec fn spans_wf(self) -> bool {
        &&& forall|name: Seq<char>| #[trigger]
            self.idents.contains_key(name) ==> {
                &&& 1 <= self.idents[name] < self.next_id
                &&& self.throughput.contains_key(self.idents[name])
                &&& self.throughput[self.idents[name]].name == name
            }
        &&& forall|id: u64| #[trigger]
            self.throughput.contains_key(id) ==> {
                &&& self.throughput[id].wf()
                &&& self.idents.contains_key(self.throughput[id].name)
                &&& self.idents[self.throughput[id].name] == id
            }
    }

    /// The counter of every event name is a progress counter labelled with
    /// that name, and it has counted at least the occurrence that made it.
    pub open spec fn events_wf(self) -> bool {
        forall|name: Seq<char>| #[trigger]
            self.latency.contains_key(name) ==> {
                &&& self.latency[name].label == name
                &&& self.latency[name].point == PROGRESS_POINT
                &&& self.latency[name].hits >= 1
            }
    }

    /// The invariant of the bridge.
    pub open spec fn wf(self) -> bool {
        &&& 1 <= self.next_id <= u64::MAX
        &&& self.spans_wf()
        &&& self.events_wf()
    }

    /// Whether a new span name can still get an identity.
    pub open spec fn has_room(self) -> bool {
        self.next_id < u64::MAX
    }

    /// Whether `new_span` can serve `name`: it is known already, or an
    /// identity is left for it.
    pub open spec fn admits_span(self, name: Seq<char>) -> bool {
        self.idents.contains_key(name) || self.has_room()
    }

    /// Whether `id` is the identity of a registered span.
    pub open spec fn registered(self, id: u64) -> bool {
        self.throughput.contains_key(id)
    }

    /// Whether the span `id` can be entered and left: it is registered, and
    /// the profiler can take its name.
    pub open spec fn countable(self, id: u64) -> bool {
        self.registered(id) && profiler_name(self.throughput[id].name)
    }

    /// The identity that `new_span` answers for `name`.
    pub open spec fn span_id(self, name: Seq<char>) -> u64 {
        if self.idents.contains_key(name) {
            self.idents[name]
        } else {
            self.next_id as u64
        }
    }

    /// The state with one more identity handed out and the tables untouched.
    pub open spec fn skip_id(self) -> BridgeState {
        BridgeState { next_id: self.next_id + 1, ..self }
    }

    /// The state after `new_span` for `name`: a known name changes nothing, a
    /// new one takes the next identity and a fresh pair under it.
    pub open spec fn new_span(self, name: Seq<char>) -> BridgeState {
        if self.idents.contains_key(name) {
            self
        } else {
            BridgeState {
                next_id: self.next_id + 1,
                idents: self.idents.insert(name, self.next_id as u64),
                throughput: self.throughput.insert(self.next_id as u64, Throughput::fresh(name)),
                latency: self.latency,
            }
        }
    }

    /// How often the event `name` has occurred.
    pub open spec fn occurrences(self, name: Seq<char>) -> nat {
        if self.latency.contains_key(name) {
            self.latency[name].hits
        } else {
            0
        }
    }

    /// The state after one occurrence of the event `name`: a known name has
    /// its counter incremented, a new one gets a progress counter labelled
    /// with it that has counted this occurrence.
    pub open spec fn event(self, name: Seq<char>) -> BridgeState {
        BridgeState {
            latency: self.latency.insert(
                name,
                if self.latency.contains_key(name) {
                    self.latency[name].hit()
                } else {
                    Tally::fresh(name, PROGRESS_POINT as int).hit()
                },
            ),
            ..self
        }
    }

    /// The state after the span `id` was entered.
    pub open spec fn enter(self, id: u64) -> BridgeState
        recommends
            self.registered(id),
    {
        BridgeState { throughput: self.throughput.insert(id, self.throughput[id].enter()), ..self }
    }

    /// The state after the span `id` was left.
    pub open spec fn exit(self, id: u64) -> BridgeState
        recommends
            self.registered(id),
    {
        BridgeState { throughput: self.throughput.insert(id, self.throughput[id].exit()), ..self }
    }

    /// A state with the same span names, the same identities under the same
    /// names and the same events keeps the invariant, whatever its pairs have
    /// counted and however many identities it has handed out since.
    pub proof fn lemma_frame_wf(self, next: BridgeState)
        requires
            self.wf(),
            self.next_id <= next.next_id <= u64::MAX,
            next.idents == self.idents,
            next.latency == self.latency,
            forall|id: u64| next.throughput.contains_key(id) <==> self.throughput.contains_key(id),
            forall|id: u64| #[trigger]
                self.throughput.contains_key(id) ==> next.throughput[id].wf()
                    && next.throughput[id].name == self.throughput[id].name,
        ensures
            next.wf(),
    {
        assert forall|name: Seq<char>| #[trigger] next.idents.contains_key(name) implies {
            &&& 1 <= next.idents[name] < next.next_id
            &&& next.throughput.contains_key(next.idents[name])
            &&& next.throughput[next.idents[name]].name == name
        } by {
            assert(self.idents.contains_key(name));
            assert(self.throughput.contains_key(self.idents[name]));
        }
        assert forall|id: u64| #[trigger] next.throughput.contains_key(id) implies {
            &&& next.throughput[id].wf()
            &&& next.idents.contains_key(next.throughput[id].name)
            &&& next.idents[next.throughput[id].name] == id
        } by {
            assert(self.throughput.contains_key(id));
        }
    }

    /// Handing out an identity that no table uses keeps the invariant.
    pub proof fn lemma_skip_id_wf(self)
        requires
            self.wf(),
            self.has_room(),
        ensures
            self.skip_id().wf(),
    {
        self.lemma_frame_wf(self.skip_id());
    }

    /// No pair is keyed by an identity that has not been handed out yet.
    pub proof fn lemma_registered_below_next(self, id: u64)
        requires
            self.wf(),
            self.registered(id),
        ensures
            1 <= id < self.next_id,
    {
        assert(self.idents.contains_key(self.throughput[id].name));
    }

    /// `new_span` keeps the invariant.
    pub proof fn lemma_new_span_wf(self, name: Seq<char>)
        requires
            self.wf(),
            self.admits_span(name),
        ensures
            self.new_span(name).wf(),
    {
        if !self.idents.contains_key(name) {
            let next = self.new_span(name);
            let fresh = self.next_id as u64;
            if self.throughput.contains_key(fresh) {
                self.lemma_registered_below_next(fresh);
            }
            assert forall|other: Seq<char>| #[trigger] next.idents.contains_key(other) implies {
                &&& 1 <= next.idents[other] < next.next_id
                &&& next.throughput.contains_key(next.idents[other])
                &&& next.throughput[next.idents[other]].name == other
            } by {
                if other != name {
                    assert(self.idents.contains_key(other));
                }
            }
            assert forall|id: u64| #[trigger] next.throughput.contains_key(id) implies {
                &&& next.throughput[id].wf()
                &&& next.idents.contains_key(next.throughput[id].name)
                &&& next.idents[next.throughput[id].name] == id
            } by {
                if id != fresh {
                    assert(self.throughput.contains_key(id));
                }
            }
        }
    }

    /// `event` keeps the invariant.
    pub proof fn lemma_event_wf(self, name: Seq<char>)
        requires
            self.wf(),
        ensures
            self.event(name).wf(),
    {
        let next = self.event(name);
        assert forall|other: Seq<char>| #[trigger] next.latency.contains_key(other) implies {
            &&& next.latency[other].label == other
            &&& next.latency[other].point == PROGRESS_POINT
            &&& next.latency[other].hits >= 1
        } by {
            if other != name {
                assert(self.latency.contains_key(other));
            }
        }
    }

    /// `enter` keeps the invariant.
    pub proof fn lemma_enter_wf(self, id: u64)
        requires
            self.wf(),
            self.registered(id),
        ensures
            self.enter(id).wf(),
    {
        self.lemma_frame_wf(self.enter(id));
    }

    /// `exit` keeps the invariant.
    pub proof fn lemma_exit_wf(self, id: u64)
        requires
            self.wf(),
            self.registered(id),
        ensures
            self.exit(id).wf(),
    {
        self.lemma_frame_wf(self.exit(id));
    }
}

} // verus!
