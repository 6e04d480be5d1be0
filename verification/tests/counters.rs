use tracing_coz::counters::{
    entered, first_occurrence, is_profiler_name, left, next_occurrence, ThroughputCounter,
    BEGIN_POINT, END_POINT, PROGRESS_POINT,
};

#[test]
fn plain_names_suit_the_profiler() {
    assert!(is_profiler_name("request"));
    assert!(is_profiler_name(""));
    assert!(is_profiler_name("src/main.rs:10"));
    assert!(is_profiler_name("größe"));
}

#[test]
fn a_nul_anywhere_spoils_the_name() {
    assert!(!is_profiler_name("\0"));
    assert!(!is_profiler_name("\0start"));
    assert!(!is_profiler_name("mid\0dle"));
    assert!(!is_profiler_name("end\0"));
    assert!(!is_profiler_name("größe\0"));
}

#[test]
fn type_tags_are_those_of_the_profiler() {
    assert_eq!(PROGRESS_POINT, 1);
    assert_eq!(BEGIN_POINT, 2);
    assert_eq!(END_POINT, 3);
}

#[test]
fn a_pair_can_be_made_for_any_name() {
    let _pair = ThroughputCounter::new("request");
    let _empty = ThroughputCounter::new("");
}

#[test]
fn a_pair_with_nul_in_its_name_can_be_made() {
    let _pair = ThroughputCounter::new("a\0b");
}

#[test]
fn a_pair_counts_entries_and_exits() {
    let mut pair = ThroughputCounter::new("request");
    pair.begin();
    pair.begin();
    pair.finish();
}

#[test]
fn an_empty_slot_stays_empty() {
    assert!(entered(None).is_none());
    assert!(left(None).is_none());
}

#[test]
fn a_filled_slot_stays_filled() {
    let slot = entered(Some(ThroughputCounter::new("request")));
    assert!(slot.is_some());
    let slot = left(slot);
    assert!(slot.is_some());
}

#[test]
fn occurrences_count_without_a_profiler() {
    let mut counter = first_occurrence("tick");
    next_occurrence(&mut counter);
    next_occurrence(&mut counter);
}
