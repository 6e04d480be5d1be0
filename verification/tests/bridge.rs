use tracing::Id;
use tracing_coz::{SpanError, TracingCozBridge};

#[test]
fn identities_start_at_one() {
    let mut bridge = TracingCozBridge::new();
    let id = bridge.new_span("request");
    assert_eq!(id.into_u64(), 1);
}

#[test]
fn identities_grow_by_one_per_new_name() {
    let mut bridge = TracingCozBridge::new();
    assert_eq!(bridge.new_span("a").into_u64(), 1);
    assert_eq!(bridge.new_span("b").into_u64(), 2);
    assert_eq!(bridge.new_span("c").into_u64(), 3);
    assert_eq!(bridge.new_span("b").into_u64(), 2);
    assert_eq!(bridge.new_span("d").into_u64(), 4);
}

#[test]
fn a_known_name_uses_up_no_identity() {
    let mut bridge = TracingCozBridge::new();
    for _ in 0..10 {
        bridge.new_span("same");
    }
    assert_eq!(bridge.new_span("next").into_u64(), 2);
}

#[test]
fn new_bridge_knows_nothing() {
    let bridge = TracingCozBridge::new();
    assert!(bridge.span_of("request").is_none());
    assert!(!bridge.tracks_event("tick"));
    assert!(!bridge.is_registered(&Id::from_u64(1)));
}

#[test]
fn new_span_registers_name_and_pair() {
    let mut bridge = TracingCozBridge::new();
    let id = bridge.new_span("request");
    assert_eq!(bridge.span_of("request"), Some(id.clone()));
    assert!(bridge.is_registered(&id));
    assert!(bridge.span_of("other").is_none());
    assert!(!bridge.is_registered(&Id::from_u64(2)));
}

#[test]
fn register_callsite_is_always_interested() {
    let bridge = TracingCozBridge::new();
    let interest = bridge.register_callsite();
    assert!(interest.is_always());
    assert!(!interest.is_never());
    assert!(!interest.is_sometimes());
}

#[test]
fn everything_is_enabled() {
    let bridge = TracingCozBridge::new();
    assert!(bridge.enabled());
}

#[test]
fn record_and_follows_from_change_nothing() {
    let mut bridge = TracingCozBridge::new();
    let a = bridge.new_span("a");
    let b = bridge.new_span("b");
    bridge.record(&a);
    bridge.record_follows_from(&a, &b);
    bridge.record(&Id::from_u64(99));
    assert_eq!(bridge.span_of("a"), Some(a));
    assert_eq!(bridge.span_of("b"), Some(b));
    assert!(!bridge.is_registered(&Id::from_u64(99)));
    assert_eq!(bridge.new_span("c").into_u64(), 3);
}

#[test]
fn event_creates_its_counter_once() {
    let mut bridge = TracingCozBridge::new();
    assert!(!bridge.tracks_event("tick"));
    bridge.event("tick");
    assert!(bridge.tracks_event("tick"));
    bridge.event("tick");
    bridge.event("tick");
    assert!(bridge.tracks_event("tick"));
    assert!(!bridge.tracks_event("tock"));
}

#[test]
fn events_and_spans_do_not_share_names() {
    let mut bridge = TracingCozBridge::new();
    bridge.event("shared");
    assert!(bridge.span_of("shared").is_none());
    let id = bridge.new_span("shared");
    assert_eq!(id.into_u64(), 1);
    assert!(bridge.tracks_event("shared"));
    bridge.new_span("only_span");
    assert!(!bridge.tracks_event("only_span"));
}

#[test]
fn enter_and_exit_registered_span() {
    let mut bridge = TracingCozBridge::new();
    let id = bridge.new_span("work");
    bridge.enter(&id);
    bridge.exit(&id);
    bridge.enter(&id);
    bridge.enter(&id);
    bridge.exit(&id);
    assert!(bridge.is_registered(&id));
    assert_eq!(bridge.new_span("work"), id);
}

#[test]
fn try_enter_and_try_exit_accept_registered_span() {
    let mut bridge = TracingCozBridge::new();
    let id = bridge.new_span("work");
    assert_eq!(bridge.try_enter(&id), Ok(()));
    assert_eq!(bridge.try_exit(&id), Ok(()));
    assert_eq!(bridge.try_exit(&id), Ok(()));
}

#[test]
fn enter_unknown_span_is_a_violation() {
    let mut bridge = TracingCozBridge::new();
    let stranger = Id::from_u64(7);
    assert_eq!(bridge.try_enter(&stranger), Err(SpanError::Unregistered { span: 7 }));
    assert!(!bridge.is_registered(&stranger));
}

#[test]
fn exit_unknown_span_is_a_violation() {
    let mut bridge = TracingCozBridge::new();
    bridge.new_span("known");
    let stranger = Id::from_u64(2);
    assert_eq!(bridge.try_exit(&stranger), Err(SpanError::Unregistered { span: 2 }));
    assert!(!bridge.is_registered(&stranger));
    assert_eq!(bridge.new_span("later").into_u64(), 2);
    assert_eq!(bridge.try_exit(&stranger), Ok(()));
}

#[test]
fn admits_span_takes_any_name() {
    let mut bridge = TracingCozBridge::new();
    assert!(bridge.admits_span("plain"));
    assert!(bridge.admits_span(""));
    assert!(bridge.admits_span("bad\0name"));
    bridge.new_span("plain");
    assert!(bridge.admits_span("plain"));
}

#[test]
fn a_name_with_nul_is_registered_like_any_other() {
    let mut bridge = TracingCozBridge::new();
    let plain = bridge.new_span("plain");
    let odd = bridge.new_span("a\0b");
    assert_eq!(plain.into_u64(), 1);
    assert_eq!(odd.into_u64(), 2);
    assert!(bridge.is_registered(&odd));
    assert_eq!(bridge.span_of("a\0b"), Some(odd.clone()));
    assert_eq!(bridge.new_span("a\0b"), odd);
    assert_eq!(bridge.new_span("later").into_u64(), 3);
}

#[test]
fn a_span_with_nul_in_its_name_cannot_be_counted() {
    let mut bridge = TracingCozBridge::new();
    let odd = bridge.new_span("a\0b");
    let plain = bridge.new_span("plain");
    assert_eq!(bridge.try_enter(&odd), Err(SpanError::UnusableName { span: 1 }));
    assert_eq!(bridge.try_exit(&odd), Err(SpanError::UnusableName { span: 1 }));
    assert_eq!(bridge.try_enter(&plain), Ok(()));
    assert_eq!(bridge.try_exit(&plain), Ok(()));
    assert!(bridge.is_registered(&odd));
}

#[test]
fn check_span_tells_the_three_cases_apart() {
    let mut bridge = TracingCozBridge::new();
    let plain = bridge.new_span("plain");
    let odd = bridge.new_span("\0");
    assert_eq!(bridge.check_span(&plain), None);
    assert_eq!(bridge.check_span(&odd), Some(SpanError::UnusableName { span: 2 }));
    assert_eq!(bridge.check_span(&Id::from_u64(3)), Some(SpanError::Unregistered { span: 3 }));
}
