//! The profiler's counters, and the pair of them that measures a span.

use coz::Counter;
use vstd::prelude::*;

verus! {

/// `coz::Counter`, a handle on one of the profiler's counters.
#[verifier::external_type_specification]
#[verifier::external_body]
pub struct ExCounter(coz::Counter);

/// The type tag of a progress counter, as `coz` passes it to the profiler.
pub const PROGRESS_POINT: u8 = 1;

/// The type tag of a counter that marks where an operation begins.
pub const BEGIN_POINT: u8 = 2;

/// The type tag of a counter that marks where an operation ends.
pub const END_POINT: u8 = 3;

/// The name that a counter was created with.
pub uninterp spec fn counter_label(c: Counter) -> Seq<char>;

/// The type tag that a counter was created with.
pub uninterp spec fn counter_point(c: Counter) -> int;

/// How many increments have been issued through a counter handle.
pub uninterp spec fn counter_hits(c: Counter) -> nat;

/// What a counter handle stands for: the label and type tag it was created
/// with, and how many increments went through it.
pub struct Tally {
    pub label: Seq<char>,
    pub point: int,
    pub hits: nat,
}

impl Tally {
    /// A counter that has counted nothing yet.
    pub open spec fn fresh(label: Seq<char>, point: int) -> Tally {
        Tally { label, point, hits: 0 }
    }

    /// The counter after one more increment.
    pub open spec fn hit(self) -> Tally {
        Tally { hits: self.hits + 1, ..self }
    }
}

/// The view of a counter handle.
pub open spec fn tally(c: Counter) -> Tally {
    Tally { label: counter_label(c), point: counter_point(c), hits: counter_hits(c) }
}

/// A name that the profiler can take: `coz` turns it into a C string on the
/// first increment, which fails on a NUL character.
pub open spec fn profiler_name(name: Seq<char>) -> bool {
    forall|i: int| 0 <= i < name.len() ==> name[i] != '\0'
}

/// Tests whether `name` can label a counter.
pub fn is_profiler_name(name: &str) -> (ok: bool)
    ensures
        ok == profiler_name(name@),
{
    let len: usize = name.unicode_len();
    let mut i: usize = 0;
    while i < len
        invariant
            len == name@.len(),
            i <= len,
            forall|j: int| 0 <= j < i ==> name@[j] != '\0',
        decreases len - i,
    {
        if name.get_char(i) == '\0' {
            return false;
        }
        i += 1;
    }
    true
}

/// `Counter::progress` makes a fresh progress counter labelled `name`.
pub assume_specification[ coz::Counter::progress ](name: &'static str) -> (c: Counter)
    ensures
        counter_label(c) == name@,
        counter_point(c) == PROGRESS_POINT,
        counter_hits(c) == 0,
;

/// `Counter::begin` makes a fresh begin counter labelled `name`.
pub assume_specification[ coz::Counter::begin ](name: &'static str) -> (c: Counter)
    ensures
        counter_label(c) == name@,
        counter_point(c) == BEGIN_POINT,
        counter_hits(c) == 0,
;

/// `Counter::end` makes a fresh end counter labelled `name`.
pub assume_specification[ coz::Counter::end ](name: &'static str) -> (c: Counter)
    ensures
        counter_label(c) == name@,
        counter_point(c) == END_POINT,
        counter_hits(c) == 0,
;

/// `Counter::increment` reports one more occurrence to the profiler. The
/// handle keeps its label and type; its tally of issued increments grows by
/// one. The label must be free of NUL, or `coz` panics when it first resolves
/// the counter.
#[verifier::external_body]
pub(crate) fn increment(c: &mut Counter)
    requires
        profiler_name(counter_label(*old(c))),
    ensures
        counter_label(*final(c)) == counter_label(*old(c)),
        counter_point(*final(c)) == counter_point(*old(c)),
        counter_hits(*final(c)) == counter_hits(*old(c)) + 1,
{
    c.increment()
}

/// A progress counter for the event named `name` that has already counted
/// its first occurrence.
pub fn first_occurrence(name: &'static str) -> (c: Counter)
    requires
        profiler_name(name@),
    ensures
        tally(c) == Tally::fresh(name@, PROGRESS_POINT as int).hit(),
{
    let mut c = Counter::progress(name);
    increment(&mut c);
    c
}

/// One more occurrence on the progress counter of an event.
pub fn next_occurrence(c: &mut Counter)
    requires
        profiler_name(tally(*old(c)).label),
    ensures
        tally(*final(c)) == tally(*old(c)).hit(),
{
    increment(c);
}

/// What a throughput pair stands for: the span's name and the two counters
/// that tell how often the span was entered and left.
pub struct Throughput {
    pub name: Seq<char>,
    pub start: Tally,
    pub end: Tally,
}

impl Throughput {
    /// The pair of a span that was neither entered nor left yet.
    pub open spec fn fresh(name: Seq<char>) -> Throughput {
        Throughput {
            name,
            start: Tally::fresh(name, BEGIN_POINT as int),
            end: Tally::fresh(name, END_POINT as int),
        }
    }

    /// Both counters carry the span's name; the first marks beginnings and
    /// the second endings.
    pub open spec fn wf(self) -> bool {
        &&& self.start.label == self.name
        &&& self.end.label == self.name
        &&& self.start.point == BEGIN_POINT
        &&& self.end.point == END_POINT
    }

    /// The pair after one more entry.
    pub open spec fn enter(self) -> Throughput {
        Throughput { start: self.start.hit(), ..self }
    }

    /// The pair after one more exit.
    pub open spec fn exit(self) -> Throughput {
        Throughput { end: self.end.hit(), ..self }
    }
}

/// A begin counter and an end counter for one span, with the span's name.
pub struct ThroughputCounter {
    pub(crate) name: &'static str,
    pub(crate) start: Counter,
    pub(crate) end: Counter,
}

impl View for ThroughputCounter {
    type V = Throughput;

    closed spec fn view(&self) -> Throughput {
        Throughput { name: self.name@, start: tally(self.start), end: tally(self.end) }
    }
}

impl ThroughputCounter {
    /// Creates the pair of counters for the span named `name`.
    pub fn new(name: &'static str) -> (pair: Self)
        ensures
            pair@ == Throughput::fresh(name@),
    {
        ThroughputCounter { name, start: Counter::begin(name), end: Counter::end(name) }
    }

    /// Counts one entry, on the begin counter.
    pub fn begin(&mut self)
        requires
            profiler_name(old(self)@.start.label),
        ensures
            final(self)@ == old(self)@.enter(),
    {
        increment(&mut self.start);
    }

    /// Counts one exit, on the end counter.
    pub fn finish(&mut self)
        requires
            profiler_name(old(self)@.end.label),
        ensures
            final(self)@ == old(self)@.exit(),
    {
        increment(&mut self.end);
    }
}

/// What becomes of a table slot when its span is entered: a pair counts the
/// entry, an empty slot stays empty.
pub fn entered(slot: Option<ThroughputCounter>) -> (out: Option<ThroughputCounter>)
    requires
        slot is Some ==> profiler_name(slot->0@.start.label),
    ensures
        out is Some <==> slot is Some,
        slot is Some ==> out->0@ == slot->0@.enter(),
{
    match slot {
        Some(mut pair) => {
            pair.begin();
            Some(pair)
        },
        None => None,
    }
}

/// What becomes of a table slot when its span is left: a pair counts the
/// exit, an empty slot stays empty.
pub fn left(slot: Option<ThroughputCounter>) -> (out: Option<ThroughputCounter>)
    requires
        slot is Some ==> profiler_name(slot->0@.end.label),
    ensures
        out is Some <==> slot is Some,
        slot is Some ==> out->0@ == slot->0@.exit(),
{
    match slot {
        Some(mut pair) => {
            pair.finish();
            Some(pair)
        },
        None => None,
    }
}

} // verus!
