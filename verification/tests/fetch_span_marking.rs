use eventflow::state::ProcessingState;
use nostr::Timestamp;

fn ts(n: u64) -> u64 {
    Timestamp::from(n).as_secs()
}

#[test]
fn test_fetch_with_limit_should_not_mark_full_range() {
    let mut state = ProcessingState::new();

    let requested_start = ts(1757326871);
    let requested_end = ts(1759400471);

    let _events = vec![
        ts(1759400464),
        ts(1759400465),
        ts(1759400466),
        ts(1759400468),
        ts(1759400469),
        ts(1759400470),
    ];

    // Only the range of the events received is marked.
    let actual_start = ts(1759400464);
    let actual_end = ts(1759400470);
    state.collected_spans.add_span(actual_start, actual_end);

    let gaps = state.collected_spans.get_gaps(requested_start, requested_end);

    assert!(
        !gaps.is_empty(),
        "Should have gaps! We only fetched 6 seconds of a 24-day range"
    );

    let first_gap = &gaps[0];
    assert_eq!(first_gap.start, requested_start);
    assert!(first_gap.end <= actual_start, "Gap should end at or before the actual data start");
}

#[test]
fn test_correct_span_marking_based_on_events() {
    let mut state = ProcessingState::new();

    let requested_start = ts(1757326871);
    let requested_end = ts(1759400471);

    let first_event = ts(1759400464);
    let last_event = ts(1759400470);

    state.collected_spans.add_span(first_event, last_event);

    let gaps = state.collected_spans.get_gaps(requested_start, requested_end);

    assert!(!gaps.is_empty(), "Should have gaps for unfetched portions");

    let first_gap = &gaps[0];
    let gap_duration = first_gap.end - first_gap.start;

    assert!(
        gap_duration > 86400,
        "First gap should be large, got {} seconds",
        gap_duration
    );
}
