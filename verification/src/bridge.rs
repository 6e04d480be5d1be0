//! The bridge itself: the tables, the identity allocator and the callbacks.

use crate::counters::{is_profiler_name, profiler_name, ThroughputCounter, PROGRESS_POINT};
use crate::identity::id_value;
use crate::interest::always_interested;
use crate::model::BridgeState;
use crate::tables::{
    ident_entries, ident_lookup, ident_register, latency_entries, latency_hit, latency_known,
    new_idents, new_latencies, new_pairs, pair_enter, pair_entries, pair_exit, pair_name,
    pair_register,
};
use chashmap::CHashMap;
use coz::Counter;
use tracing::subscriber::Interest;
use tracing::Id;
use vstd::prelude::*;

verus! {

/// Why a span could not be entered or left.
#[derive(Debug, Clone, Copy, PartialEq, Eq, Structural)]
pub enum SpanError {
    /// No `new_span` ever returned the identity with this number.
    Unregistered { span: u64 },
    /// The span with this number is registered under a name that the
    /// profiler cannot take.
    UnusableName { span: u64 },
}

/// A bridge between the coz profiler and tracing.
pub struct TracingCozBridge {
    next_id: u64,
    latency_counters: CHashMap<&'static str, Counter>,
    throughput_counters: CHashMap<Id, ThroughputCounter>,
    idents: CHashMap<&'static str, Id>,
}

impl View for TracingCozBridge {
    type V = BridgeState;

    closed spec fn view(&self) -> BridgeState {
        BridgeState {
            next_id: self.next_id as nat,
            idents: ident_entries(self.idents),
            throughput: pair_entries(self.throughput_counters),
            latency: latency_entries(self.latency_counters),
        }
    }
}

impl TracingCozBridge {
    /// The bridge's tables are consistent with one another.
    pub open spec fn wf(&self) -> bool {
        self@.wf()
    }

    /// Creates a bridge between tracing and the coz profiler.
    pub fn new() -> (bridge: Self)
        ensures
            bridge.wf(),
            bridge@ == BridgeState::initial(),
    {
        let bridge = TracingCozBridge {
            next_id: 1,
            latency_counters: new_latencies(),
            throughput_counters: new_pairs(),
            idents: new_idents(),
        };
        assert(bridge@.idents =~= Map::empty());
        assert(bridge@.throughput =~= Map::empty());
        assert(bridge@.latency =~= Map::empty());
        bridge
    }

    /// Hands out the next identity.
    fn next_id(&mut self) -> (id: Id)
        requires
            old(self).wf(),
            old(self)@.has_room(),
        ensures
            final(self).wf(),
            final(self)@ == old(self)@.skip_id(),
            id_value(id) == old(self)@.next_id,
    {
        let n: u64 = self.next_id;
        self.next_id = n + 1;
        proof {
            old(self)@.lemma_skip_id_wf();
        }
        Id::from_u64(n)
    }

    /// Every call site is of interest: the bridge filters nothing.
    pub fn register_callsite(&self) -> (interest: Interest)
        ensures
            always_interested(interest),
    {
        Interest::always()
    }

    /// Whether `new_span` can serve `name`: it is registered already, or an
    /// identity is left for it.
    pub fn admits_span(&self, name: &'static str) -> (ok: bool)
        ensures
            ok == self@.admits_span(name@),
    {
        ident_lookup(&self.idents, name).is_some() || self.next_id < u64::MAX
    }

    /// Returns the identity of the span named `name`, assigning the next one
    /// together with a fresh throughput pair when the name is new.
    pub fn new_span(&mut self, name: &'static str) -> (id: Id)
        requires
            old(self).wf(),
            old(self)@.admits_span(name@),
        ensures
            final(self).wf(),
            final(self)@ == old(self)@.new_span(name@),
            id_value(id) == old(self)@.span_id(name@),
            final(self)@.idents.contains_key(name@),
            final(self)@.idents[name@] == id_value(id),
            final(self)@.registered(id_value(id)),
            final(self)@.throughput[id_value(id)].name == name@,
            final(self)@.throughput[id_value(id)].wf(),
    {
        if ident_lookup(&self.idents, name).is_none() {
            let fresh = self.next_id();
            proof {
                if old(self)@.registered(id_value(fresh)) {
                    old(self)@.lemma_registered_below_next(id_value(fresh));
                }
            }
            pair_register(&mut self.throughput_counters, fresh.clone(), name);
            ident_register(&mut self.idents, name, fresh);
        }
        proof {
            old(self)@.lemma_new_span_wf(name@);
        }
        ident_lookup(&self.idents, name).unwrap()
    }

    /// Relations between spans are not modelled: nothing happens.
    pub fn record_follows_from(&self, _span: &Id, _follows: &Id) {
    }

    /// Values recorded on a span are not modelled: nothing happens.
    pub fn record(&self, _span: &Id) {
    }

    /// Counts one occurrence of the event named `name`, creating its progress
    /// counter on the first.
    pub fn event(&mut self, name: &'static str)
        requires
            old(self).wf(),
            profiler_name(name@),
        ensures
            final(self).wf(),
            final(self)@ == old(self)@.event(name@),
            final(self)@.latency.contains_key(name@),
            final(self)@.latency[name@].label == name@,
            final(self)@.latency[name@].point == PROGRESS_POINT,
            final(self)@.occurrences(name@) == old(self)@.occurrences(name@) + 1,
            forall|other: Seq<char>|
                other != name@ ==> (final(self)@.latency.contains_key(other) <==> old(
                    self,
                )@.latency.contains_key(other)) && final(self)@.latency[other] == old(
                    self,
                )@.latency[other],
    {
        latency_hit(&mut self.latency_counters, name);
        proof {
            old(self)@.lemma_event_wf(name@);
        }
    }

    /// Whether the event named `name` has occurred, so that it has a progress
    /// counter.
    pub fn tracks_event(&self, name: &'static str) -> (known: bool)
        ensures
            known == self@.latency.contains_key(name@),
    {
        latency_known(&self.latency_counters, name)
    }

    /// Every span and event is enabled: the bridge samples nothing.
    pub fn enabled(&self) -> (on: bool)
        ensures
            on,
    {
        true
    }

    /// Whether `span` is the identity of a registered span.
    pub fn is_registered(&self, span: &Id) -> (known: bool)
        ensures
            known == self@.registered(id_value(*span)),
    {
        pair_name(&self.throughput_counters, span).is_some()
    }

    /// The identity of the span named `name`, if the name was registered.
    pub fn span_of(&self, name: &'static str) -> (found: Option<Id>)
        ensures
            found is Some <==> self@.idents.contains_key(name@),
            found is Some ==> id_value(found->0) == self@.idents[name@],
    {
        ident_lookup(&self.idents, name)
    }

    /// Counts one entry into the span `span`, on its begin counter alone.
    /// The span must be registered under a name that the profiler can take.
    pub fn enter(&mut self, span: &Id)
        requires
            old(self).wf(),
            old(self)@.countable(id_value(*span)),
        ensures
            final(self).wf(),
            final(self)@ == old(self)@.enter(id_value(*span)),
            final(self)@.throughput[id_value(*span)].start.hits == old(
                self,
            )@.throughput[id_value(*span)].start.hits + 1,
            final(self)@.throughput[id_value(*span)].end == old(
                self,
            )@.throughput[id_value(*span)].end,
            forall|other: u64|
                (final(self)@.registered(other) <==> old(self)@.registered(other)) && (other
                    != id_value(*span) ==> final(self)@.throughput[other] == old(
                    self,
                )@.throughput[other]),
    {
        pair_enter(&mut self.throughput_counters, span);
        proof {
            old(self)@.lemma_enter_wf(id_value(*span));
        }
    }

    /// Counts one exit from the span `span`, on its end counter alone. The
    /// span must be registered under a name that the profiler can take.
    pub fn exit(&mut self, span: &Id)
        requires
            old(self).wf(),
            old(self)@.countable(id_value(*span)),
        ensures
            final(self).wf(),
            final(self)@ == old(self)@.exit(id_value(*span)),
            final(self)@.throughput[id_value(*span)].end.hits == old(
                self,
            )@.throughput[id_value(*span)].end.hits + 1,
            final(self)@.throughput[id_value(*span)].start == old(
                self,
            )@.throughput[id_value(*span)].start,
            forall|other: u64|
                (final(self)@.registered(other) <==> old(self)@.registered(other)) && (other
                    != id_value(*span) ==> final(self)@.throughput[other] == old(
                    self,
                )@.throughput[other]),
    {
        pair_exit(&mut self.throughput_counters, span);
        proof {
            old(self)@.lemma_exit_wf(id_value(*span));
        }
    }

    /// Why `span` cannot be entered or left, if it cannot.
    pub open spec fn refusal(&self, span: u64) -> Option<SpanError> {
        if !self@.registered(span) {
            Some(SpanError::Unregistered { span })
        } else if !profiler_name(self@.throughput[span].name) {
            Some(SpanError::UnusableName { span })
        } else {
            None
        }
    }

    /// Tells why `span` cannot be entered or left, if it cannot.
    pub fn check_span(&self, span: &Id) -> (refusal: Option<SpanError>)
        ensures
            refusal == self.refusal(id_value(*span)),
            refusal is None <==> self@.countable(id_value(*span)),
    {
        match pair_name(&self.throughput_counters, span) {
            None => Some(SpanError::Unregistered { span: span.into_u64() }),
            Some(name) => {
                if is_profiler_name(name) {
                    None
                } else {
                    Some(SpanError::UnusableName { span: span.into_u64() })
                }
            },
        }
    }

    /// Counts one entry into `span`. Where no `new_span` ever returned that
    /// identity, or the profiler cannot take the span's name, it reports
    /// which, and the bridge is unchanged.
    pub fn try_enter(&mut self, span: &Id) -> (outcome: Result<(), SpanError>)
        requires
            old(self).wf(),
        ensures
            final(self).wf(),
            outcome is Ok <==> old(self)@.countable(id_value(*span)),
            outcome is Ok ==> final(self)@ == old(self)@.enter(id_value(*span)),
            outcome is Err ==> final(self)@ == old(self)@,
            outcome is Err ==> Some(outcome->Err_0) == old(self).refusal(id_value(*span)),
    {
        match self.check_span(span) {
            None => {
                self.enter(span);
                Ok(())
            },
            Some(refusal) => Err(refusal),
        }
    }

    /// Counts one exit from `span`. Where no `new_span` ever returned that
    /// identity, or the profiler cannot take the span's name, it reports
    /// which, and the bridge is unchanged.
    pub fn try_exit(&mut self, span: &Id) -> (outcome: Result<(), SpanError>)
        requires
            old(self).wf(),
        ensures
            final(self).wf(),
            outcome is Ok <==> old(self)@.countable(id_value(*span)),
            outcome is Ok ==> final(self)@ == old(self)@.exit(id_value(*span)),
            outcome is Err ==> final(self)@ == old(self)@,
            outcome is Err ==> Some(outcome->Err_0) == old(self).refusal(id_value(*span)),
    {
        match self.check_span(span) {
            None => {
                self.exit(span);
                Ok(())
            },
            Some(refusal) => Err(refusal),
        }
    }
}

} // verus!
