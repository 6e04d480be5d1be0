use tracing::Id;
use tracing_coz::TracingCozBridge;

#[test]
fn many_callers_register_one_span() {
    let mut bridge = TracingCozBridge::new();
    let mut ids: Vec<Id> = Vec::new();
    for _ in 0..16 {
        ids.push(bridge.new_span("same_name"));
    }
    assert_eq!(ids.len(), 16);
    for id in &ids {
        assert_eq!(id.into_u64(), 1);
    }
    assert_eq!(bridge.span_of("same_name"), Some(Id::from_u64(1)));
    assert!(bridge.is_registered(&Id::from_u64(1)));
    assert!(!bridge.is_registered(&Id::from_u64(2)));
    assert_eq!(bridge.new_span("next").into_u64(), 2);
}

#[test]
fn many_callers_report_one_event() {
    let mut bridge = TracingCozBridge::new();
    for _ in 0..16 {
        bridge.event("same_event");
    }
    assert!(bridge.tracks_event("same_event"));
    assert!(!bridge.tracks_event("same_name"));
    assert!(bridge.span_of("same_event").is_none());
}

#[test]
fn two_spans_interleaved() {
    let mut bridge = TracingCozBridge::new();
    let a = bridge.new_span("a");
    let b = bridge.new_span("b");
    assert_ne!(a, b);
    for round in 0..100 {
        assert_eq!(bridge.try_enter(&a), Ok(()));
        if round % 2 == 0 {
            assert_eq!(bridge.try_enter(&b), Ok(()));
            assert_eq!(bridge.try_exit(&a), Ok(()));
            assert_eq!(bridge.try_exit(&b), Ok(()));
        } else {
            assert_eq!(bridge.try_exit(&a), Ok(()));
        }
    }
    assert_eq!(bridge.new_span("a"), a);
    assert_eq!(bridge.new_span("b"), b);
    assert_eq!(bridge.new_span("c").into_u64(), 3);
}
