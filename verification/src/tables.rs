//! The three concurrent tables of the bridge, each seen as a mathematical map.

use crate::counters::{
    entered, first_occurrence, left, next_occurrence, profiler_name, Tally, Throughput,
    ThroughputCounter, PROGRESS_POINT,
};
use crate::identity::id_value;
use chashmap::CHashMap;
use coz::Counter;
use tracing::Id;
use vstd::prelude::*;

verus! {

/// `chashmap::CHashMap`, the concurrent hash map that holds each table.
#[verifier::external_type_specification]
#[verifier::external_body]
#[verifier::reject_recursive_types(K)]
#[verifier::reject_recursive_types(V)]
pub struct ExCHashMap<K, V>(chashmap::CHashMap<K, V>);

/// What the table of span names holds: for each name the number of its identity.
pub uninterp spec fn ident_entries(m: CHashMap<&'static str, Id>) -> Map<Seq<char>, u64>;

/// What the table of throughput pairs holds: for the number of each identity
/// the view of its pair.
pub uninterp spec fn pair_entries(m: CHashMap<Id, ThroughputCounter>) -> Map<u64, Throughput>;

/// What the table of progress counters holds: for each event name the view
/// of its counter.
pub uninterp spec fn latency_entries(m: CHashMap<&'static str, Counter>) -> Map<Seq<char>, Tally>;

/// `CHashMap::new` for the table of span names: it starts empty.
#[verifier::external_body]
pub(crate) fn new_idents() -> (m: CHashMap<&'static str, Id>)
    ensures
        ident_entries(m).is_empty(),
{
    CHashMap::new()
}

/// `CHashMap::new` for the table of throughput pairs: it starts empty.
#[verifier::external_body]
pub(crate) fn new_pairs() -> (m: CHashMap<Id, ThroughputCounter>)
    ensures
        pair_entries(m).is_empty(),
{
    CHashMap::new()
}

/// `CHashMap::new` for the table of progress counters: it starts empty.
#[verifier::external_body]
pub(crate) fn new_latencies() -> (m: CHashMap<&'static str, Counter>)
    ensures
        latency_entries(m).is_empty(),
{
    CHashMap::new()
}

/// `CHashMap::get` on the table of span names, with the identity cloned out
/// of the guard: `Some` exactly for a name that the table holds.
#[verifier::external_body]
pub(crate) fn ident_lookup(m: &CHashMap<&'static str, Id>, name: &'static str) -> (found: Option<Id>)
    ensures
        found is Some <==> ident_entries(*m).contains_key(name@),
        found is Some ==> id_value(found->0) == ident_entries(*m)[name@],
{
    m.get(name).map(|id| id.clone())
}

/// `CHashMap::upsert` on the table of span names, with an update that does
/// nothing: an absent name gets `id`, a present one keeps what it has.
#[verifier::external_body]
pub(crate) fn ident_register(m: &mut CHashMap<&'static str, Id>, name: &'static str, id: Id)
    ensures
        ident_entries(*final(m)) == if ident_entries(*old(m)).contains_key(name@) {
            ident_entries(*old(m))
        } else {
            ident_entries(*old(m)).insert(name@, id_value(id))
        },
{
    m.upsert(name, || id, |_| ())
}

/// `CHashMap::upsert` on the table of throughput pairs, with an update that
/// does nothing: an absent identity gets a fresh pair labelled `name`, a
/// present one keeps what it has.
#[verifier::external_body]
pub(crate) fn pair_register(m: &mut CHashMap<Id, ThroughputCounter>, id: Id, name: &'static str)
    ensures
        pair_entries(*final(m)) == if pair_entries(*old(m)).contains_key(id_value(id)) {
            pair_entries(*old(m))
        } else {
            pair_entries(*old(m)).insert(id_value(id), Throughput::fresh(name@))
        },
{
    m.upsert(id, || ThroughputCounter::new(name), |_| ())
}

/// `CHashMap::get` on the table of throughput pairs, with the span's name
/// picked out of the pair found: `Some` exactly for an identity that the
/// table holds.
#[verifier::external_body]
pub(crate) fn pair_name(m: &CHashMap<Id, ThroughputCounter>, id: &Id) -> (found: Option<&'static str>)
    ensures
        found is Some <==> pair_entries(*m).contains_key(id_value(*id)),
        found is Some ==> found->0@ == pair_entries(*m)[id_value(*id)].name,
{
    m.get(id).map(|pair| pair.name)
}

/// `CHashMap::alter` on the table of throughput pairs, with `entered` as the
/// change: the pair under the identity counts one entry. The label of its
/// begin counter must be free of NUL, or the increment panics.
#[verifier::external_body]
pub(crate) fn pair_enter(m: &mut CHashMap<Id, ThroughputCounter>, id: &Id)
    requires
        pair_entries(*old(m)).contains_key(id_value(*id)),
        profiler_name(pair_entries(*old(m))[id_value(*id)].start.label),
    ensures
        pair_entries(*final(m)) == pair_entries(*old(m)).insert(
            id_value(*id),
            pair_entries(*old(m))[id_value(*id)].enter(),
        ),
{
    m.alter(id.clone(), |slot| entered(slot))
}

/// `CHashMap::alter` on the table of throughput pairs, with `left` as the
/// change: the pair under the identity counts one exit. The label of its end
/// counter must be free of NUL, or the increment panics.
#[verifier::external_body]
pub(crate) fn pair_exit(m: &mut CHashMap<Id, ThroughputCounter>, id: &Id)
    requires
        pair_entries(*old(m)).contains_key(id_value(*id)),
        profiler_name(pair_entries(*old(m))[id_value(*id)].end.label),
    ensures
        pair_entries(*final(m)) == pair_entries(*old(m)).insert(
            id_value(*id),
            pair_entries(*old(m))[id_value(*id)].exit(),
        ),
{
    m.alter(id.clone(), |slot| left(slot))
}

/// `CHashMap::contains_key` on the table of progress counters.
#[verifier::external_body]
pub(crate) fn latency_known(m: &CHashMap<&'static str, Counter>, name: &'static str) -> (known: bool)
    ensures
        known == latency_entries(*m).contains_key(name@),
{
    m.contains_key(name)
}

/// `CHashMap::upsert` on the table of progress counters: an absent name gets
/// a progress counter labelled with it that has counted this occurrence, a
/// present one is incremented in place. The name, and the label of a counter
/// already there, must be free of NUL, or the increment panics.
#[verifier::external_body]
pub(crate) fn latency_hit(m: &mut CHashMap<&'static str, Counter>, name: &'static str)
    requires
        profiler_name(name@),
        latency_entries(*old(m)).contains_key(name@) ==> profiler_name(
            latency_entries(*old(m))[name@].label,
        ),
    ensures
        latency_entries(*final(m)) == latency_entries(*old(m)).insert(
            name@,
            if latency_entries(*old(m)).contains_key(name@) {
                latency_entries(*old(m))[name@].hit()
            } else {
                Tally::fresh(name@, PROGRESS_POINT as int).hit()
            },
        ),
{
    m.upsert(name, || first_occurrence(name), |c| next_occurrence(c))
}

} // verus!
